use vstd::prelude::*;
use libc::c_int;
use crate::dlt_types::DltReturnValue;

verus! {

/// Whether a header type byte asks for an extended header (bit 0).
pub open spec fn spec_htyp_ueh(htyp: u8) -> bool {
    htyp % 2 == 1
}

/// Whether a header type byte selects most-significant-byte-first fields (bit 1).
pub open spec fn spec_htyp_msbf(htyp: u8) -> bool {
    (htyp / 2) % 2 == 1
}

/// Whether a header type byte announces an ECU id (bit 2).
pub open spec fn spec_htyp_weid(htyp: u8) -> bool {
    (htyp / 4) % 2 == 1
}

/// Whether a header type byte announces a session id (bit 3).
pub open spec fn spec_htyp_wsid(htyp: u8) -> bool {
    (htyp / 8) % 2 == 1
}

/// Whether a header type byte announces a timestamp (bit 4).
pub open spec fn spec_htyp_wtms(htyp: u8) -> bool {
    (htyp / 16) % 2 == 1
}

/// The protocol version held in the top three bits of a header type byte.
pub open spec fn spec_htyp_version(htyp: u8) -> int {
    htyp as int / 32
}

/// Whether a message info byte marks a verbose payload (bit 0).
pub open spec fn spec_msin_verb(msin: u8) -> bool {
    msin % 2 == 1
}

/// The message type of a message info byte (bits 1 to 3).
pub open spec fn spec_msin_mstp(msin: u8) -> int {
    (msin as int / 2) % 8
}

/// The message type info of a message info byte (bits 4 to 7).
pub open spec fn spec_msin_mtin(msin: u8) -> int {
    msin as int / 16
}


// Definitions of the htyp parameter
/// Use extended header
pub const DLT_HTYP_UEH: c_int = 0x01;

/// MSB first
pub const DLT_HTYP_MSBF: c_int = 0x02;

/// With ECU ID
pub const DLT_HTYP_WEID: c_int = 0x04;

/// With session ID
pub const DLT_HTYP_WSID: c_int = 0x08;

/// With timestamp
pub const DLT_HTYP_WTMS: c_int = 0x10;

/// Version number, 0x1
pub const DLT_HTYP_VERS: c_int = 0xe0;

/// The version bits of protocol version 1, in place
pub const DLT_HTYP_PROTOCOL_VERSION1: c_int = 0x20;

/// Nonzero exactly when the header type asks for an extended header.
pub fn DLT_IS_HTYP_UEH(htyp: c_int) -> (bit: c_int)
    ensures
        bit == htyp & DLT_HTYP_UEH,
        bit == 0 || bit == DLT_HTYP_UEH,
        0 <= htyp < 256 ==> (bit != 0) == spec_htyp_ueh(htyp as u8),
{
    assert(htyp & 0x01 == 0 || htyp & 0x01 == 0x01) by (bit_vector);
    assert(0 <= htyp < 256 ==> ((htyp & 0x01) != 0) == (htyp % 2 == 1)) by (bit_vector);
    htyp & DLT_HTYP_UEH
}

/// Nonzero exactly when the header type selects most-significant-byte-first fields.
pub fn DLT_IS_HTYP_MSBF(htyp: c_int) -> (bit: c_int)
    ensures
        bit == htyp & DLT_HTYP_MSBF,
        bit == 0 || bit == DLT_HTYP_MSBF,
        0 <= htyp < 256 ==> (bit != 0) == spec_htyp_msbf(htyp as u8),
{
    assert(htyp & 0x02 == 0 || htyp & 0x02 == 0x02) by (bit_vector);
    assert(0 <= htyp < 256 ==> ((htyp & 0x02) != 0) == ((htyp / 2) % 2 == 1)) by (bit_vector);
    htyp & DLT_HTYP_MSBF
}

/// Nonzero exactly when the header type announces an ECU id.
pub fn DLT_IS_HTYP_WEID(htyp: c_int) -> (bit: c_int)
    ensures
        bit == htyp & DLT_HTYP_WEID,
        bit == 0 || bit == DLT_HTYP_WEID,
        0 <= htyp < 256 ==> (bit != 0) == spec_htyp_weid(htyp as u8),
{
    assert(htyp & 0x04 == 0 || htyp & 0x04 == 0x04) by (bit_vector);
    assert(0 <= htyp < 256 ==> ((htyp & 0x04) != 0) == ((htyp / 4) % 2 == 1)) by (bit_vector);
    htyp & DLT_HTYP_WEID
}

/// Nonzero exactly when the header type announces a session id.
pub fn DLT_IS_HTYP_WSID(htyp: c_int) -> (bit: c_int)
    ensures
        bit == htyp & DLT_HTYP_WSID,
        bit == 0 || bit == DLT_HTYP_WSID,
        0 <= htyp < 256 ==> (bit != 0) == spec_htyp_wsid(htyp as u8),
{
    assert(htyp & 0x08 == 0 || htyp & 0x08 == 0x08) by (bit_vector);
    assert(0 <= htyp < 256 ==> ((htyp & 0x08) != 0) == ((htyp / 8) % 2 == 1)) by (bit_vector);
    htyp & DLT_HTYP_WSID
}

/// Nonzero exactly when the header type announces a timestamp.
pub fn DLT_IS_HTYP_WTMS(htyp: c_int) -> (bit: c_int)
    ensures
        bit == htyp & DLT_HTYP_WTMS,
        bit == 0 || bit == DLT_HTYP_WTMS,
        0 <= htyp < 256 ==> (bit != 0) == spec_htyp_wtms(htyp as u8),
{
    assert(htyp & 0x10 == 0 || htyp & 0x10 == 0x10) by (bit_vector);
    assert(0 <= htyp < 256 ==> ((htyp & 0x10) != 0) == ((htyp / 16) % 2 == 1)) by (bit_vector);
    htyp & DLT_HTYP_WTMS
}

// Definitions of msin parameter
/// Verbose
pub const DLT_MSIN_VERB: c_int = 0x01;

/// Message type
pub const DLT_MSIN_MSTP: c_int = 0x0e;

/// Message type info
pub const DLT_MSIN_MTIN: c_int = 0xf0;

/// Shift right offset to get mstp value
pub const DLT_MSIN_MSTP_SHIFT: c_int = 1;

/// Shift right offset to get mtin value
pub const DLT_MSIN_MTIN_SHIFT: c_int = 4;

/// Nonzero exactly when the message info marks a verbose payload.
pub fn DLT_IS_MSIN_VERB(msin: c_int) -> (bit: c_int)
    ensures
        bit == msin & DLT_MSIN_VERB,
        bit == 0 || bit == DLT_MSIN_VERB,
        0 <= msin < 256 ==> (bit != 0) == spec_msin_verb(msin as u8),
{
    assert(msin & 0x01 == 0 || msin & 0x01 == 0x01) by (bit_vector);
    assert(0 <= msin < 256 ==> ((msin & 0x01) != 0) == (msin % 2 == 1)) by (bit_vector);
    msin & DLT_MSIN_VERB
}

/// The message type held in bits 1 to 3 of the message info.
pub fn DLT_GET_MSIN_MSTP(msin: c_int) -> (mstp: c_int)
    ensures
        mstp == (msin & DLT_MSIN_MSTP) >> DLT_MSIN_MSTP_SHIFT,
        0 <= mstp <= 7,
        0 <= msin < 256 ==> mstp == spec_msin_mstp(msin as u8),
{
    assert(0 <= ((msin & 0x0e) >> 1) <= 7) by (bit_vector);
    assert(0 <= msin < 256 ==> ((msin & 0x0e) >> 1) == (msin / 2) % 8) by (bit_vector);
    (msin & DLT_MSIN_MSTP) >> DLT_MSIN_MSTP_SHIFT
}

/// The message type info held in the upper four bits of the message info.
pub fn DLT_GET_MSIN_MTIN(msin: c_int) -> (mtin: c_int)
    ensures
        mtin == (msin & DLT_MSIN_MTIN) >> DLT_MSIN_MTIN_SHIFT,
        0 <= mtin <= 15,
        0 <= msin < 256 ==> mtin == spec_msin_mtin(msin as u8),
{
    assert(0 <= ((msin & 0xf0) >> 4) <= 15) by (bit_vector);
    assert(0 <= msin < 256 ==> ((msin & 0xf0) >> 4) == msin / 16) by (bit_vector);
    (msin & DLT_MSIN_MTIN) >> DLT_MSIN_MTIN_SHIFT
}

// Definitions of mstp parameter
/// Log message type
pub const DLT_TYPE_LOG: c_int = 0x00;

/// Application trace message type
pub const DLT_TYPE_APP_TRACE: c_int = 0x01;

/// Network trace message type
pub const DLT_TYPE_NW_TRACE: c_int = 0x02;

/// Control message type
pub const DLT_TYPE_CONTROL: c_int = 0x03;

// Definitions of msti parameter
/// Tracing of a variable
pub const DLT_TRACE_VARIABLE: c_int = 0x01;

/// Tracing of function calls
pub const DLT_TRACE_FUNCTION_IN: c_int = 0x02;

/// Tracing of function return values
pub const DLT_TRACE_FUNCTION_OUT: c_int = 0x03;

/// Tracing of states of a state machine
pub const DLT_TRACE_STATE: c_int = 0x04;

/// Tracing of virtual function bus
pub const DLT_TRACE_VFB: c_int = 0x05;

// Definitions of msci parameter
/// Request message
pub const DLT_CONTROL_REQUEST: c_int = 0x01;

/// Response to request message
pub const DLT_CONTROL_RESPONSE: c_int = 0x02;

/// Keep-alive message
pub const DLT_CONTROL_TIME: c_int = 0x03;

/// Message info of a control request
pub const DLT_MSIN_CONTROL_REQUEST: c_int = 0x16;

/// Message info of a control response
pub const DLT_MSIN_CONTROL_RESPONSE: c_int = 0x26;

/// Message info of a keep-alive control message
pub const DLT_MSIN_CONTROL_TIME: c_int = 0x36;

// Definitions of types of arguments in payload
/// Length of standard data: 1 = 8bit, 2 = 16bit, 3 = 32 bit, 4 = 64 bit, 5 = 128 bit
pub const DLT_TYPE_INFO_TYLE: c_int = 0x0000000f;

/// Boolean data
pub const DLT_TYPE_INFO_BOOL: c_int = 0x00000010;

/// Signed integret data
pub const DLT_TYPE_INFO_SINT: c_int = 0x00000020;

/// Unsigned integer data
pub const DLT_TYPE_INFO_UINT: c_int = 0x00000040;

/// Float data
pub const DLT_TYPE_INFO_FLOA: c_int = 0x00000080;

/// Array of standard types
pub const DLT_TYPE_INFO_ARAY: c_int = 0x00000100;

/// String
pub const DLT_TYPE_INFO_STRG: c_int = 0x00000200;

/// Raw data
pub const DLT_TYPE_INFO_RAWD: c_int = 0x00000400;

/// Set, if additional information to a variable is available
pub const DLT_TYPE_INFO_VARI: c_int = 0x00000800;

/// Set, if quantization and offset are added
pub const DLT_TYPE_INFO_FIXP: c_int = 0x00001000;

/// Set, if additional trace information is added
pub const DLT_TYPE_INFO_TRAI: c_int = 0x00002000;

/// Struct
pub const DLT_TYPE_INFO_STRU: c_int = 0x00004000;

/// Coding of the type string: 0 = ASCII, 1 = UTF-8
pub const DLT_TYPE_INFO_SCOD: c_int = 0x00038000;

/// Length class: 8 bit
pub const DLT_TYLE_8BIT: c_int = 0x00000001;

/// Length class: 16 bit
pub const DLT_TYLE_16BIT: c_int = 0x00000002;

/// Length class: 32 bit
pub const DLT_TYLE_32BIT: c_int = 0x00000003;

/// Length class: 64 bit
pub const DLT_TYLE_64BIT: c_int = 0x00000004;

/// Length class: 128 bit
pub const DLT_TYLE_128BIT: c_int = 0x00000005;

/// String coding: ASCII
pub const DLT_SCOD_ASCII: c_int = 0x00000000;

/// String coding: UTF-8
pub const DLT_SCOD_UTF8: c_int = 0x00008000;

/// String coding: hexadecimal
pub const DLT_SCOD_HEX: c_int = 0x00010000;

/// String coding: binary
pub const DLT_SCOD_BIN: c_int = 0x00018000;

// Definitions of DLT services
/// Service ID: Set log level
pub const DLT_SERVICE_ID_SET_LOG_LEVEL: c_int = 0x01;

/// Service ID: Set trace status
pub const DLT_SERVICE_ID_SET_TRACE_STATUS: c_int = 0x02;

/// Service ID: Get log info
pub const DLT_SERVICE_ID_GET_LOG_INFO: c_int = 0x03;

/// Service ID: Get dafault log level
pub const DLT_SERVICE_ID_GET_DEFAULT_LOG_LEVEL: c_int = 0x04;

/// Service ID: Store configuration
pub const DLT_SERVICE_ID_STORE_CONFIG: c_int = 0x05;

/// Service ID: Reset to factory defaults
pub const DLT_SERVICE_ID_RESET_TO_FACTORY_DEFAULT: c_int = 0x06;

/// Service ID: Set communication interface status
pub const DLT_SERVICE_ID_SET_COM_INTERFACE_STATUS: c_int = 0x07;

/// Service ID: Set communication interface maximum bandwidth
pub const DLT_SERVICE_ID_SET_COM_INTERFACE_MAX_BANDWIDTH: c_int = 0x08;

/// Service ID: Set verbose mode
pub const DLT_SERVICE_ID_SET_VERBOSE_MODE: c_int = 0x09;

/// Service ID: Set message filtering
pub const DLT_SERVICE_ID_SET_MESSAGE_FILTERING: c_int = 0x0A;

/// Service ID: Set timing packets
pub const DLT_SERVICE_ID_SET_TIMING_PACKETS: c_int = 0x0B;

/// Service ID: Get local time
pub const DLT_SERVICE_ID_GET_LOCAL_TIME: c_int = 0x0C;

/// Service ID: Use ECU id
pub const DLT_SERVICE_ID_USE_ECU_ID: c_int = 0x0D;

/// Service ID: Use session id
pub const DLT_SERVICE_ID_USE_SESSION_ID: c_int = 0x0E;

/// Service ID: Use timestamp
pub const DLT_SERVICE_ID_USE_TIMESTAMP: c_int = 0x0F;

/// Service ID: Use extended header
pub const DLT_SERVICE_ID_USE_EXTENDED_HEADER: c_int = 0x10;

/// Service ID: Set default log level
pub const DLT_SERVICE_ID_SET_DEFAULT_LOG_LEVEL: c_int = 0x11;

/// Service ID: Set default trace status
pub const DLT_SERVICE_ID_SET_DEFAULT_TRACE_STATUS: c_int = 0x12;

/// Service ID: Get software version
pub const DLT_SERVICE_ID_GET_SOFTWARE_VERSION: c_int = 0x13;

/// Service ID: Message buffer overflow
pub const DLT_SERVICE_ID_MESSAGE_BUFFER_OVERFLOW: c_int = 0x14;

/// Service ID: Last entry to avoid any further modifications in dependent code
pub const DLT_SERVICE_ID_LAST_ENTRY: c_int = 0x15;

/// Service ID: Message unregister context
pub const DLT_SERVICE_ID_UNREGISTER_CONTEXT: c_int = 0xf01;

/// Service ID: Message connection info
pub const DLT_SERVICE_ID_CONNECTION_INFO: c_int = 0xf02;

/// Service ID: Timezone
pub const DLT_SERVICE_ID_TIMEZONE: c_int = 0xf03;

/// Service ID: Marker
pub const DLT_SERVICE_ID_MARKER: c_int = 0xf04;

/// Service ID: Offline log storage
pub const DLT_SERVICE_ID_OFFLINE_LOGSTORAGE: c_int = 0xf05;

/// Service ID: (Dis)Connect passive Node
pub const DLT_SERVICE_ID_PASSIVE_NODE_CONNECT: c_int = 0xf0E;

/// Service ID: Passive Node status information
pub const DLT_SERVICE_ID_PASSIVE_NODE_CONNECTION_STATUS: c_int = 0xf0F;

/// Service ID: set all log level
pub const DLT_SERVICE_ID_SET_ALL_LOG_LEVEL: c_int = 0xf10;

/// Service ID: Message Injection (minimal ID)
pub const DLT_SERVICE_ID_CALLSW_CINJECTION: c_int = 0xFFF;

// Definitions of DLT service response status
/// Control message response: OK
pub const DLT_SERVICE_RESPONSE_OK: c_int = 0x00;

/// Control message response: Not supported
pub const DLT_SERVICE_RESPONSE_NOT_SUPPORTED: c_int = 0x01;

/// Control message response: Error
pub const DLT_SERVICE_RESPONSE_ERROR: c_int = 0x02;

// Definitions of DLT service connection state
/// Client is disconnected
pub const DLT_CONNECTION_STATUS_DISCONNECTED: c_int = 0x01;

/// Client is connected
pub const DLT_CONNECTION_STATUS_CONNECTED: c_int = 0x02;

/// What kind of value an argument of a verbose payload holds.
#[derive(Debug, Clone, Copy, PartialEq, Eq, Structural)]
pub enum DltArgumentKind {
    /// Boolean data
    Bool,
    /// Signed integer data
    Sint,
    /// Unsigned integer data
    Uint,
    /// Float data
    Float,
    /// String
    String,
    /// Raw data
    Raw,
    /// Struct
    Struct,
}

/// What the type info of an argument says.
#[derive(Debug, Clone, Copy, PartialEq, Eq, Structural)]
pub struct DltTypeInfo {
    /// The kind of value
    pub kind: DltArgumentKind,
    /// Bits of a value of standard type: 8, 16, 32, 64 or 128; zero for a string, raw data
    /// or a struct
    pub width: u8,
    /// Whether the argument is an array of standard types
    pub array: bool,
    /// Whether additional information to a variable is available
    pub vari: bool,
    /// Whether quantization and offset are added
    pub fixp: bool,
    /// Whether additional trace information is added
    pub trai: bool,
    /// Coding of a string: 0 ASCII, 1 UTF-8, 2 hexadecimal, 3 binary
    pub scod: u8,
}

/// Whether the bit with the value `mask`, a power of two, is set in `type_info`.
pub open spec fn spec_type_info_bit(type_info: u32, mask: int) -> bool {
    (type_info as int / mask) % 2 == 1
}

/// The length class of a type info: its lowest four bits.
pub open spec fn spec_type_info_tyle(type_info: u32) -> int {
    type_info as int % 16
}

/// The string coding of a type info: its bits 15 to 17.
pub open spec fn spec_type_info_scod(type_info: u32) -> int {
    (type_info as int / 0x8000) % 8
}

/// The number of kind bits that are set in a type info: boolean, signed, unsigned, float,
/// string, raw, struct.
pub open spec fn spec_type_info_kinds(type_info: u32) -> int {
    (if spec_type_info_bit(type_info, 0x10) {
        1int
    } else {
        0int
    }) + (if spec_type_info_bit(type_info, 0x20) {
        1int
    } else {
        0int
    }) + (if spec_type_info_bit(type_info, 0x40) {
        1int
    } else {
        0int
    }) + (if spec_type_info_bit(type_info, 0x80) {
        1int
    } else {
        0int
    }) + (if spec_type_info_bit(type_info, 0x200) {
        1int
    } else {
        0int
    }) + (if spec_type_info_bit(type_info, 0x400) {
        1int
    } else {
        0int
    }) + (if spec_type_info_bit(type_info, 0x4000) {
        1int
    } else {
        0int
    })
}

/// The kind that a type info with exactly one kind bit names.
pub open spec fn spec_type_info_kind(type_info: u32) -> DltArgumentKind {
    if spec_type_info_bit(type_info, 0x10) {
        DltArgumentKind::Bool
    } else if spec_type_info_bit(type_info, 0x20) {
        DltArgumentKind::Sint
    } else if spec_type_info_bit(type_info, 0x40) {
        DltArgumentKind::Uint
    } else if spec_type_info_bit(type_info, 0x80) {
        DltArgumentKind::Float
    } else if spec_type_info_bit(type_info, 0x200) {
        DltArgumentKind::String
    } else if spec_type_info_bit(type_info, 0x400) {
        DltArgumentKind::Raw
    } else {
        DltArgumentKind::Struct
    }
}

/// Whether a kind is a standard type, whose values have one of the five widths.
pub open spec fn spec_kind_is_standard(kind: DltArgumentKind) -> bool {
    kind == DltArgumentKind::Bool || kind == DltArgumentKind::Sint || kind == DltArgumentKind::Uint
        || kind == DltArgumentKind::Float
}

/// Bits of a value of a length class: 8, 16, 32, 64, 128 for the classes 1 to 5, and zero
/// for any other.
pub open spec fn spec_tyle_width(tyle: int) -> int {
    if tyle == 1 {
        8
    } else if tyle == 2 {
        16
    } else if tyle == 3 {
        32
    } else if tyle == 4 {
        64
    } else if tyle == 5 {
        128
    } else {
        0
    }
}

/// What a type info says, or `None` where it is malformed: it has no kind bit or more than
/// one, or it names a standard type with a length class outside 1 to 5.
pub open spec fn spec_type_info_decode(type_info: u32) -> Option<DltTypeInfo> {
    let kind = spec_type_info_kind(type_info);
    let width = spec_tyle_width(spec_type_info_tyle(type_info));
    if spec_type_info_kinds(type_info) != 1 {
        None
    } else if spec_kind_is_standard(kind) && width == 0 {
        None
    } else {
        Some(
            DltTypeInfo {
                kind,
                width: if spec_kind_is_standard(kind) {
                    width as u8
                } else {
                    0
                },
                array: spec_type_info_bit(type_info, 0x100),
                vari: spec_type_info_bit(type_info, 0x800),
                fixp: spec_type_info_bit(type_info, 0x1000),
                trai: spec_type_info_bit(type_info, 0x2000),
                scod: spec_type_info_scod(type_info) as u8,
            },
        )
    }
}

/// Whether the bit with the value `mask` is set in a type info.
fn dlt_type_info_has(type_info: u32, mask: c_int) -> (set: bool)
    requires
        mask == 0x10 || mask == 0x20 || mask == 0x40 || mask == 0x80 || mask == 0x100 || mask
            == 0x200 || mask == 0x400 || mask == 0x800 || mask == 0x1000 || mask == 0x2000 || mask
            == 0x4000,
    ensures
        set == spec_type_info_bit(type_info, mask as int),
{
    (type_info / (mask as u32)) % 2 == 1
}

/// Bits of a value of a length class: 8, 16, 32, 64, 128 for the classes 1 to 5, and zero
/// for any other.
pub fn dlt_tyle_width(tyle: c_int) -> (width: u8)
    ensures
        width == spec_tyle_width(tyle as int),
{
    if tyle == DLT_TYLE_8BIT {
        8
    } else if tyle == DLT_TYLE_16BIT {
        16
    } else if tyle == DLT_TYLE_32BIT {
        32
    } else if tyle == DLT_TYLE_64BIT {
        64
    } else if tyle == DLT_TYLE_128BIT {
        128
    } else {
        0
    }
}

/// Reads the type info of an argument.
///
/// Fails with `DLT_RETURN_ERROR` where the type info is malformed: no kind bit is set or
/// more than one, or the kind is a standard type and the length class is none of 1 to 5.
pub fn dlt_type_info_decode(type_info: u32) -> (r: Result<DltTypeInfo, DltReturnValue>)
    ensures
        match spec_type_info_decode(type_info) {
            Some(info) => r == Ok::<DltTypeInfo, DltReturnValue>(info),
            None => r == Err::<DltTypeInfo, DltReturnValue>(DltReturnValue::DLT_RETURN_ERROR),
        },
{
    let is_bool = dlt_type_info_has(type_info, DLT_TYPE_INFO_BOOL);
    let is_sint = dlt_type_info_has(type_info, DLT_TYPE_INFO_SINT);
    let is_uint = dlt_type_info_has(type_info, DLT_TYPE_INFO_UINT);
    let is_floa = dlt_type_info_has(type_info, DLT_TYPE_INFO_FLOA);
    let is_strg = dlt_type_info_has(type_info, DLT_TYPE_INFO_STRG);
    let is_rawd = dlt_type_info_has(type_info, DLT_TYPE_INFO_RAWD);
    let is_stru = dlt_type_info_has(type_info, DLT_TYPE_INFO_STRU);
    let mut kinds: u8 = 0;
    if is_bool {
        kinds += 1;
    }
    if is_sint {
        kinds += 1;
    }
    if is_uint {
        kinds += 1;
    }
    if is_floa {
        kinds += 1;
    }
    if is_strg {
        kinds += 1;
    }
    if is_rawd {
        kinds += 1;
    }
    if is_stru {
        kinds += 1;
    }
    if kinds != 1 {
        return Err(DltReturnValue::DLT_RETURN_ERROR);
    }
    let kind = if is_bool {
        DltArgumentKind::Bool
    } else if is_sint {
        DltArgumentKind::Sint
    } else if is_uint {
        DltArgumentKind::Uint
    } else if is_floa {
        DltArgumentKind::Float
    } else if is_strg {
        DltArgumentKind::String
    } else if is_rawd {
        DltArgumentKind::Raw
    } else {
        DltArgumentKind::Struct
    };
    let standard = is_bool || is_sint || is_uint || is_floa;
    let width = dlt_tyle_width((type_info % 16) as c_int);
    if standard && width == 0 {
        return Err(DltReturnValue::DLT_RETURN_ERROR);
    }
    Ok(
        DltTypeInfo {
            kind,
            width: if standard {
                width
            } else {
                0
            },
            array: dlt_type_info_has(type_info, DLT_TYPE_INFO_ARAY),
            vari: dlt_type_info_has(type_info, DLT_TYPE_INFO_VARI),
            fixp: dlt_type_info_has(type_info, DLT_TYPE_INFO_FIXP),
            trai: dlt_type_info_has(type_info, DLT_TYPE_INFO_TRAI),
            scod: ((type_info / 0x8000) % 8) as u8,
        },
    )
}

} // verus!
