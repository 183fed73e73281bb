#![allow(non_camel_case_types, non_snake_case, non_upper_case_globals)]

pub mod dlt_argument;
pub mod dlt_buffer;
pub mod dlt_bytes;
pub mod dlt_common;
pub mod dlt_file;
pub mod dlt_filter;
pub mod dlt_message;
pub mod dlt_print;
pub mod dlt_protocol;
pub mod dlt_receiver;
pub mod dlt_shm;
pub mod dlt_types;
pub mod dlt_user;

pub use dlt_buffer::DltBuffer;
pub use dlt_common::{
    DltExtendedHeader, DltMessage, DltStandardHeader, DltStandardHeaderExtra, DltStorageHeader,
};
pub use dlt_file::DltFile;
pub use dlt_filter::DltFilter;
pub use dlt_protocol::{
    DLT_GET_MSIN_MSTP, DLT_GET_MSIN_MTIN, DLT_IS_HTYP_MSBF, DLT_IS_HTYP_UEH, DLT_IS_HTYP_WEID,
    DLT_IS_HTYP_WSID, DLT_IS_HTYP_WTMS, DLT_IS_MSIN_VERB,
};
pub use dlt_receiver::DltReceiver;
pub use dlt_shm::{DltShm, DltShmBlockHead};
pub use dlt_types::{
    DltFormatType, DltLogLevelType, DltNetworkTraceType, DltReturnValue, DltTraceStatusType,
    DltUserLogMode,
};
pub use dlt_user::{
    dlt_env_ll_item, dlt_env_ll_set, dlt_ll_ts_type, dlt_user_is_logLevel_enabled, DltContext,
    DltContextData, DltUser, DltUserInjectionCallback, DltUserLogLevelChangedCallback,
};
