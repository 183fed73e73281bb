use vstd::prelude::*;
use libc::c_int;
use crate::dlt_buffer::{spec_block, DltBuffer};
use crate::dlt_bytes::{
    i16_to_bits, i32_to_bits, i64_to_bits, i8_to_bits, push_u16_le, push_u32, push_u64_le,
    spec_i16_bits, spec_i32_bits, spec_i64_bits, spec_i8_bits, spec_u16_le, spec_u32_le, spec_u64_le,
};
use crate::dlt_common::{dlt_id_eq, dlt_set_id, spec_set_id, DltMessage};
use crate::dlt_receiver::DltReceiver;
use crate::dlt_message::dlt_htyp;
use crate::dlt_common::{DltExtendedHeader, DltStandardHeaderExtra, DltStorageHeader};
use crate::dlt_types::{DltFormatType, DltLogLevelType, DltReturnValue, DltTraceStatusType};

verus! {

/// Maximum size of each user buffer, also used for injection buffer
pub const DLT_USER_BUF_MAX_SIZE: usize = 1390;

/// Size of resend buffer; Max DLT message size is 1390 bytes plus some extra header space
pub const DLT_USER_RESENDBUF_MAX_SIZE: usize = 1490;

/// The log level of a context that was registered without one and has no initial level
/// set: informational.
pub const DLT_USER_INITIAL_LOG_LEVEL: i8 = 4;

/// The trace status of a context that was registered without one: off.
pub const DLT_USER_INITIAL_TRACE_STATUS: i8 = 0;

/// This structure is used for every context used in an application
#[derive(Debug, Clone, Copy, PartialEq, Eq)]
pub struct DltContext {
    /// Context ID
    pub contextID: [u8; 4],
    /// Offset in user-application context field
    pub log_level_pos: i32,
    /// The log level that the context has at present, `None` where it has none
    pub log_level_ptr: Option<i8>,
    /// The trace status that the context has at present, `None` where it has none
    pub trace_status_ptr: Option<i8>,
    /// Message counter
    pub mcnt: u8,
}

/// A callback for injection messages of one service: the service and the key under which
/// the application holds the function to call.
#[derive(Debug, Clone, Copy, PartialEq, Eq)]
pub struct DltUserInjectionCallback {
    pub service_id: u32,
    pub injection_callback: Option<usize>,
}

/// A callback for changes of log level and trace status of one context, with the key
/// under which the application holds the function to call.
#[derive(Debug, Clone, Copy, PartialEq, Eq)]
pub struct DltUserLogLevelChangedCallback {
    /// Context ID
    pub contextID: [u8; 4],
    /// Log level
    pub log_level: i8,
    /// Trace status
    pub trace_status: i8,
    pub log_level_changed_callback: Option<usize>,
}

/// This structure is used in a table managing all contexts and the corresponding log levels in an application
#[derive(Debug, Clone, PartialEq, Eq)]
pub struct dlt_ll_ts_type {
    /// Context ID
    pub contextID: [u8; 4],
    /// Log level
    pub log_level: i8,
    /// Trace status
    pub trace_status: i8,
    /// Description of context
    pub context_description: Vec<u8>,
    /// Table with keys of injection functions and service IDs
    pub injection_table: Vec<DltUserInjectionCallback>,
    /// Log level changed callback
    pub log_level_changed_callback: Option<usize>,
}

/// This structure holds initial log-level for given appId:ctxId pair
#[derive(Debug, Clone, Copy, PartialEq, Eq)]
pub struct dlt_env_ll_item {
    pub appId: [u8; 4],
    pub ctxId: [u8; 4],
    pub ll: i8,
}

/// This structure holds all initial log-levels given for the session
#[derive(Debug, Clone, PartialEq, Eq)]
pub struct dlt_env_ll_set {
    pub item: Vec<dlt_env_ll_item>,
}

/// How well an initial log level fits a context: 0 not at all, 1 given for every context,
/// 2 for the context id in every application, 3 for every context of the application, 4 for
/// the context of the application.
pub open spec fn spec_env_ll_prio(item: dlt_env_ll_item, apid: [u8; 4], ctid: [u8; 4]) -> int {
    if item.appId@[0] == 0 {
        if item.ctxId@[0] == 0 {
            1
        } else if item.ctxId == ctid {
            2
        } else {
            0
        }
    } else if item.appId == apid {
        if item.ctxId@[0] == 0 {
            3
        } else if item.ctxId == ctid {
            4
        } else {
            0
        }
    } else {
        0
    }
}

/// How well an initial log level fits a context, see `spec_env_ll_prio`.
pub fn dlt_env_ll_item_get_matching_prio(item: &dlt_env_ll_item, apid: &[u8; 4], ctid: &[u8; 4]) -> (prio:
    u8)
    ensures
        prio == spec_env_ll_prio(*item, *apid, *ctid),
{
    if item.appId[0] == 0 {
        if item.ctxId[0] == 0 {
            1
        } else if dlt_id_eq(&item.ctxId, ctid) {
            2
        } else {
            0
        }
    } else if dlt_id_eq(&item.appId, apid) {
        if item.ctxId[0] == 0 {
            3
        } else if dlt_id_eq(&item.ctxId, ctid) {
            4
        } else {
            0
        }
    } else {
        0
    }
}

/// The position, among the first `n` initial levels, of the one that fits a context best,
/// the first of them where several fit equally well; -1 where none fits.
pub open spec fn spec_env_ll_best(
    items: Seq<dlt_env_ll_item>,
    apid: [u8; 4],
    ctid: [u8; 4],
    n: int,
) -> int
    decreases n,
{
    if n <= 0 {
        -1
    } else {
        let best = spec_env_ll_best(items, apid, ctid, n - 1);
        let prio = if best < 0 {
            0
        } else {
            spec_env_ll_prio(items[best], apid, ctid)
        };
        if spec_env_ll_prio(items[n - 1], apid, ctid) > prio {
            n - 1
        } else {
            best
        }
    }
}

/// The log level with which a context starts, see `dlt_env_adjust_ll_from_env`.
pub open spec fn spec_env_adjust_ll(
    items: Seq<dlt_env_ll_item>,
    apid: [u8; 4],
    ctid: [u8; 4],
    ll: i8,
) -> i8 {
    let best = spec_env_ll_best(items, apid, ctid, items.len() as int);
    if best < 0 {
        ll
    } else {
        items[best].ll
    }
}

/// The log level with which a context starts: that of the initial level that fits the
/// context best, the first of them where several fit equally well, and `ll` where none
/// fits.
pub fn dlt_env_adjust_ll_from_env(ll_set: &dlt_env_ll_set, apid: &[u8; 4], ctid: &[u8; 4], ll: i8) -> (level:
    i8)
    ensures
        level == spec_env_adjust_ll(ll_set.item@, *apid, *ctid, ll),
        (forall|i: int|
            0 <= i < ll_set.item@.len() ==> spec_env_ll_prio(
                #[trigger] ll_set.item@[i],
                *apid,
                *ctid,
            ) == 0) ==> level == ll,
        (exists|i: int|
            0 <= i < ll_set.item@.len() && spec_env_ll_prio(
                #[trigger] ll_set.item@[i],
                *apid,
                *ctid,
            ) > 0) ==> (exists|best: int|
            {
                &&& 0 <= best < ll_set.item@.len()
                &&& level == (#[trigger] ll_set.item@[best]).ll
                &&& spec_env_ll_prio(ll_set.item@[best], *apid, *ctid) > 0
                &&& forall|i: int|
                    0 <= i < ll_set.item@.len() ==> spec_env_ll_prio(
                        #[trigger] ll_set.item@[i],
                        *apid,
                        *ctid,
                    ) <= spec_env_ll_prio(ll_set.item@[best], *apid, *ctid)
                &&& forall|i: int|
                    0 <= i < best ==> spec_env_ll_prio(#[trigger] ll_set.item@[i], *apid, *ctid)
                        < spec_env_ll_prio(ll_set.item@[best], *apid, *ctid)
            }),
{
    let mut level = ll;
    let mut prio: u8 = 0;
    let mut i: usize = 0;
    let ghost mut best: int = -1;
    while i < ll_set.item.len()
        invariant
            i <= ll_set.item@.len(),
            best == spec_env_ll_best(ll_set.item@, *apid, *ctid, i as int),
            prio == 0 ==> level == ll && best == -1,
            prio > 0 ==> 0 <= best < i && level == ll_set.item@[best].ll && prio
                == spec_env_ll_prio(ll_set.item@[best], *apid, *ctid),
            forall|j: int|
                0 <= j < i ==> spec_env_ll_prio(#[trigger] ll_set.item@[j], *apid, *ctid) <= prio,
            forall|j: int|
                0 <= j < best ==> spec_env_ll_prio(#[trigger] ll_set.item@[j], *apid, *ctid) < prio,
        decreases ll_set.item@.len() - i,
    {
        let p = dlt_env_ll_item_get_matching_prio(&ll_set.item[i], apid, ctid);
        if p > prio {
            prio = p;
            level = ll_set.item[i].ll;
            proof {
                best = i as int;
            }
        }
        i += 1;
    }
    level
}

/// Tells whether a message of a log level is to be logged in a context.
///
/// Gives `DLT_RETURN_WRONG_PARAMETER` where there is no context or the context has no log
/// level, `DLT_RETURN_TRUE` where the level is not `DLT_LOG_OFF` and not above the level
/// of the context, and `DLT_RETURN_LOGGING_DISABLED` otherwise.
pub fn dlt_user_is_logLevel_enabled(handle: Option<&DltContext>, loglevel: DltLogLevelType) -> (r:
    DltReturnValue)
    ensures
        r == spec_is_log_level_enabled(
            match handle {
                Some(h) => Some(*h),
                None => None,
            },
            loglevel,
        ),
{
    let handle = match handle {
        None => {
            return DltReturnValue::DLT_RETURN_WRONG_PARAMETER;
        },
        Some(h) => h,
    };
    let log_level = match handle.log_level_ptr {
        None => {
            return DltReturnValue::DLT_RETURN_WRONG_PARAMETER;
        },
        Some(level) => level,
    };
    let code: c_int = c_int::from(loglevel);
    if code <= log_level as c_int && code != 0 {
        return DltReturnValue::DLT_RETURN_TRUE;
    }
    DltReturnValue::DLT_RETURN_LOGGING_DISABLED
}

/// The answer of `dlt_user_is_logLevel_enabled`.
pub open spec fn spec_is_log_level_enabled(
    handle: Option<DltContext>,
    loglevel: DltLogLevelType,
) -> DltReturnValue {
    match handle {
        None => DltReturnValue::DLT_RETURN_WRONG_PARAMETER,
        Some(h) => match h.log_level_ptr {
            None => DltReturnValue::DLT_RETURN_WRONG_PARAMETER,
            Some(level) => if loglevel.code() <= level && loglevel != DltLogLevelType::DLT_LOG_OFF {
                DltReturnValue::DLT_RETURN_TRUE
            } else {
                DltReturnValue::DLT_RETURN_LOGGING_DISABLED
            },
        },
    }
}

/// The smallest service id that an injection callback can be registered for.
pub const DLT_USER_INJECTION_MIN: u32 = 0xFFF;

/// This structure is used once for one application.
#[derive(Debug, Clone, PartialEq, Eq)]
pub struct DltUser {
    /// ECU ID
    pub ecuID: [u8; 4],
    /// Application ID
    pub appID: [u8; 4],
    /// Handle to FIFO of DLT daemon
    pub dlt_log_handle: c_int,
    /// Handle to own FIFO
    pub dlt_user_handle: c_int,
    /// Target of logging: 1 to file, 0 to daemon
    pub dlt_is_file: i8,
    /// Internal management struct for all contexts
    pub dlt_ll_ts: Vec<dlt_ll_ts_type>,
    /// Maximum number of contexts
    pub dlt_ll_ts_max_num_entries: u32,
    /// Number of used contexts
    pub dlt_ll_ts_num_entries: u32,
    /// Overflow marker, set to 1 on overflow, 0 otherwise
    pub overflow: i8,
    /// Counts the number of lost messages
    pub overflow_counter: u32,
    /// Description of application
    pub application_description: Vec<u8>,
    /// Receiver for internal user-defined messages from daemon
    pub receiver: DltReceiver,
    /// Verbose mode enabled: 1 enabled, 0 disabled
    pub verbose_mode: i8,
    /// Use extended header for non verbose: 1 enabled, 0 disabled
    pub use_extende_header_for_non_verbose: i8,
    /// Send always session ID: 1 enabled, 0 disabled
    pub with_session_id: i8,
    /// Send always timestamp: 1 enabled, 0 disabled
    pub with_timestamp: i8,
    /// Send always ecu ID: 1 enabled, 0 disabled
    pub with_ecu_id: i8,
    /// Local printing of log messages: 1 enabled, 0 disabled
    pub enable_local_print: i8,
    /// Local print mode
    pub local_print_mode: i8,
    /// Log state of external connection: 1 client connected, 0 not connected, -1 unknown
    pub log_state: i8,
    /// Ring-buffer for buffering messages during startup and missing connection
    pub startup_buffer: DltBuffer,
    /// Timeout used when the buffer is emptied at exit, in 0.1 milliseconds
    pub timeout_at_exit_handler: u32,
    /// Initial log levels of contexts
    pub initial_ll_set: dlt_env_ll_set,
}

impl DltUser {
    /// A session is well formed when its table holds as many contexts as it counts, within
    /// its maximum, and its receiver is well formed.
    pub open spec fn wf(&self) -> bool {
        &&& self.dlt_ll_ts@.len() == self.dlt_ll_ts_num_entries
        &&& self.dlt_ll_ts_num_entries <= self.dlt_ll_ts_max_num_entries <= 0x7fff_ffff
        &&& self.receiver.wf()
    }

    /// Whether the session is well formed.
    pub fn is_wf(&self) -> (ok: bool)
        ensures
            ok == self.wf(),
    {
        self.dlt_ll_ts_num_entries <= self.dlt_ll_ts_max_num_entries
            && self.dlt_ll_ts_max_num_entries <= 0x7fff_ffff && self.dlt_ll_ts.len()
            == self.dlt_ll_ts_num_entries as usize && self.receiver.is_wf()
    }

    /// Whether an application is registered.
    pub open spec fn spec_app_registered(&self) -> bool {
        self.appID@[0] != 0
    }

    /// Whether `after` is this session but for the application id and its description.
    pub open spec fn spec_same_but_app(&self, after: &DltUser) -> bool {
        *after == (DltUser {
            appID: after.appID,
            application_description: after.application_description,
            ..*self
        })
    }

    /// Whether `after` is this session but for the table of contexts and the number of
    /// contexts.
    pub open spec fn spec_same_but_contexts(&self, after: &DltUser) -> bool {
        *after == (DltUser {
            dlt_ll_ts: after.dlt_ll_ts,
            dlt_ll_ts_num_entries: after.dlt_ll_ts_num_entries,
            ..*self
        })
    }

    /// Whether `after` is this session but for the overflow marker and the counter of lost
    /// messages.
    pub open spec fn spec_same_but_overflow(&self, after: &DltUser) -> bool {
        *after == (DltUser {
            overflow: after.overflow,
            overflow_counter: after.overflow_counter,
            ..*self
        })
    }

    /// Whether `after` is this session but for the overflow marker, the counter of lost
    /// messages and the buffer that holds messages while the daemon cannot take them.
    pub open spec fn spec_same_but_buffered(&self, after: &DltUser) -> bool {
        *after == (DltUser {
            overflow: after.overflow,
            overflow_counter: after.overflow_counter,
            startup_buffer: after.startup_buffer,
            ..*self
        })
    }

    /// The position of the first context with this id in the table, or the number of
    /// contexts where there is none.
    pub open spec fn spec_find_context(&self, ctid: [u8; 4], from: int) -> int
        decreases self.dlt_ll_ts@.len() - from,
    {
        if from < 0 || from >= self.dlt_ll_ts@.len() {
            self.dlt_ll_ts@.len() as int
        } else if self.dlt_ll_ts@[from].contextID == ctid {
            from
        } else {
            self.spec_find_context(ctid, from + 1)
        }
    }

    /// The handle of the context at a position of the table, with the log level and trace
    /// status that the context has at present.
    pub open spec fn spec_handle(&self, pos: int) -> DltContext {
        DltContext {
            contextID: self.dlt_ll_ts@[pos].contextID,
            log_level_pos: pos as i32,
            log_level_ptr: Some(self.dlt_ll_ts@[pos].log_level),
            trace_status_ptr: Some(self.dlt_ll_ts@[pos].trace_status),
            mcnt: 0,
        }
    }

    /// Whether a handle names a context of the table: its position lies in the table, and
    /// the context there has the handle's id, which is not empty.
    pub open spec fn spec_handle_valid(&self, handle: DltContext) -> bool {
        &&& 0 <= handle.log_level_pos < self.dlt_ll_ts@.len()
        &&& handle.contextID@[0] != 0
        &&& self.dlt_ll_ts@[handle.log_level_pos as int].contextID == handle.contextID
    }

    /// A session for the ECU `ecu` with no application and no context registered. It can
    /// hold up to `max_contexts` contexts, at most as many as a signed 32-bit number counts.
    /// Messages are verbose, carry the ECU id and a timestamp but no session id, and
    /// non-verbose messages would carry an extended header; nothing is printed locally, the
    /// state of the connection is unknown, and ten seconds are allowed for emptying the
    /// buffer at exit.
    pub fn init(
        ecu: &[u8],
        max_contexts: u32,
        startup_buffer: DltBuffer,
        receiver: DltReceiver,
        initial_ll_set: dlt_env_ll_set,
    ) -> (user: DltUser)
        requires
            receiver.wf(),
        ensures
            user.wf(),
            user.ecuID@ == spec_set_id(ecu@),
            user.appID@ == seq![0u8, 0u8, 0u8, 0u8],
            !user.spec_app_registered(),
            user.application_description@.len() == 0,
            user.dlt_log_handle == -1,
            user.dlt_user_handle == -1,
            user.dlt_is_file == 0,
            user.dlt_ll_ts@.len() == 0,
            user.dlt_ll_ts_max_num_entries == (if max_contexts <= 0x7fff_ffff {
                max_contexts
            } else {
                0x7fff_ffffu32
            }),
            user.overflow == 0,
            user.overflow_counter == 0,
            user.verbose_mode == 1,
            user.use_extende_header_for_non_verbose == 1,
            user.with_session_id == 0,
            user.with_timestamp == 1,
            user.with_ecu_id == 1,
            user.enable_local_print == 0,
            user.local_print_mode == 0,
            user.log_state == -1,
            user.timeout_at_exit_handler == 100000,
            user.startup_buffer == startup_buffer,
            user.receiver == receiver,
            user.initial_ll_set == initial_ll_set,
    {
        let appID = [0u8; 4];
        assert(appID@ =~= seq![0u8, 0u8, 0u8, 0u8]);
        DltUser {
            ecuID: dlt_set_id(ecu),
            appID,
            dlt_log_handle: -1,
            dlt_user_handle: -1,
            dlt_is_file: 0,
            dlt_ll_ts: Vec::new(),
            dlt_ll_ts_max_num_entries: if max_contexts <= 0x7fff_ffff {
                max_contexts
            } else {
                0x7fff_ffff
            },
            dlt_ll_ts_num_entries: 0,
            overflow: 0,
            overflow_counter: 0,
            application_description: Vec::new(),
            receiver,
            verbose_mode: 1,
            use_extende_header_for_non_verbose: 1,
            with_session_id: 0,
            with_timestamp: 1,
            with_ecu_id: 1,
            enable_local_print: 0,
            local_print_mode: 0,
            log_state: -1,
            startup_buffer,
            timeout_at_exit_handler: 100000,
            initial_ll_set,
        }
    }

    /// Registers the application.
    ///
    /// Fails with `DLT_RETURN_WRONG_PARAMETER`, changing nothing, where the id made from
    /// `appid` is empty. Where the application is registered under this id already, nothing
    /// changes. Else the session takes the id and the description.
    pub fn register_app(&mut self, appid: &[u8], description: &[u8]) -> (r: DltReturnValue)
        requires
            old(self).wf(),
        ensures
            final(self).wf(),
            spec_set_id(appid@)[0] == 0 ==> r == DltReturnValue::DLT_RETURN_WRONG_PARAMETER
                && *final(self) == *old(self),
            spec_set_id(appid@)[0] != 0 ==> r == DltReturnValue::DLT_RETURN_OK && final(self).appID@ == spec_set_id(appid@),
            spec_set_id(appid@)[0] != 0 && old(self).appID@ == spec_set_id(appid@) ==> *final(self)
                == *old(self),
            spec_set_id(appid@)[0] != 0 && old(self).appID@ != spec_set_id(appid@) ==> final(self).application_description@ == description@,
            old(self).spec_same_but_app(final(self)),
    {
        let id = dlt_set_id(appid);
        if id[0] == 0 {
            return DltReturnValue::DLT_RETURN_WRONG_PARAMETER;
        }
        if dlt_id_eq(&self.appID, &id) {
            return DltReturnValue::DLT_RETURN_OK;
        }
        self.appID = id;
        let mut text: Vec<u8> = Vec::new();
        text.extend_from_slice(description);
        self.application_description = text;
        DltReturnValue::DLT_RETURN_OK
    }

    /// Unregisters the application: the session has no application id and no description
    /// any more. Fails with `DLT_RETURN_ERROR`, changing nothing, where none is registered.
    pub fn unregister_app(&mut self) -> (r: DltReturnValue)
        requires
            old(self).wf(),
        ensures
            final(self).wf(),
            !old(self).spec_app_registered() ==> r == DltReturnValue::DLT_RETURN_ERROR && *final(self) == *old(self),
            old(self).spec_app_registered() ==> r == DltReturnValue::DLT_RETURN_OK && !final(self).spec_app_registered() && final(self).appID@ == seq![0u8, 0u8, 0u8, 0u8] && final(self).application_description@.len() == 0,
            old(self).spec_same_but_app(final(self)),
    {
        if self.appID[0] == 0 {
            return DltReturnValue::DLT_RETURN_ERROR;
        }
        self.appID = [0u8; 4];
        self.application_description = Vec::new();
        assert(self.appID@ =~= seq![0u8, 0u8, 0u8, 0u8]);
        DltReturnValue::DLT_RETURN_OK
    }

    /// Finds the first context with this id in the table: its position, or the number of
    /// contexts where there is none.
    pub fn find_context(&self, ctid: &[u8; 4]) -> (at: usize)
        requires
            self.wf(),
        ensures
            at == self.spec_find_context(*ctid, 0),
            at <= self.dlt_ll_ts@.len(),
            at < self.dlt_ll_ts@.len() ==> self.dlt_ll_ts@[at as int].contextID == *ctid,
            forall|i: int| 0 <= i < at ==> self.dlt_ll_ts@[i].contextID != *ctid,
    {
        let mut i: usize = 0;
        while i < self.dlt_ll_ts.len()
            invariant
                i <= self.dlt_ll_ts@.len(),
                self.spec_find_context(*ctid, 0) == self.spec_find_context(*ctid, i as int),
                forall|j: int| 0 <= j < i ==> self.dlt_ll_ts@[j].contextID != *ctid,
            decreases self.dlt_ll_ts@.len() - i,
        {
            if dlt_id_eq(&self.dlt_ll_ts[i].contextID, ctid) {
                return i;
            }
            i += 1;
        }
        i
    }

    /// The handle of the context at a position of the table, with the log level and the
    /// trace status that the context has at present; `None` where the position lies
    /// outside the table.
    pub fn context_handle(&self, pos: i32) -> (handle: Option<DltContext>)
        requires
            self.wf(),
        ensures
            handle == (if 0 <= pos < self.dlt_ll_ts@.len() {
                Some(self.spec_handle(pos as int))
            } else {
                None
            }),
    {
        if pos < 0 || pos as usize >= self.dlt_ll_ts.len() {
            return None;
        }
        let entry = &self.dlt_ll_ts[pos as usize];
        Some(
            DltContext {
                contextID: entry.contextID,
                log_level_pos: pos,
                log_level_ptr: Some(entry.log_level),
                trace_status_ptr: Some(entry.trace_status),
                mcnt: 0,
            },
        )
    }

    /// Tells whether a message of a log level is to be logged in the context that a handle
    /// names, by the log level that the context has in the table at present.
    ///
    /// Gives `DLT_RETURN_WRONG_PARAMETER` where there is no handle or it names no context
    /// of the table, `DLT_RETURN_TRUE` where the level is not `DLT_LOG_OFF` and not above
    /// the level of the context, and `DLT_RETURN_LOGGING_DISABLED` otherwise.
    pub fn is_log_level_enabled(&self, handle: Option<&DltContext>, loglevel: DltLogLevelType) -> (r:
        DltReturnValue)
        requires
            self.wf(),
        ensures
            r == (match handle {
                Some(h) => if self.spec_handle_valid(*h) {
                    spec_is_log_level_enabled(
                        Some(self.spec_handle(h.log_level_pos as int)),
                        loglevel,
                    )
                } else {
                    DltReturnValue::DLT_RETURN_WRONG_PARAMETER
                },
                None => DltReturnValue::DLT_RETURN_WRONG_PARAMETER,
            }),
    {
        match handle {
            None => DltReturnValue::DLT_RETURN_WRONG_PARAMETER,
            Some(h) => match self.context_handle(h.log_level_pos) {
                None => DltReturnValue::DLT_RETURN_WRONG_PARAMETER,
                Some(now) => {
                    if h.contextID[0] == 0 || !dlt_id_eq(&now.contextID, &h.contextID) {
                        return DltReturnValue::DLT_RETURN_WRONG_PARAMETER;
                    }
                    dlt_user_is_logLevel_enabled(Some(&now), loglevel)
                },
            },
        }
    }
}

/// The log level with which a context of an application starts: the level asked for, or,
/// where none is asked for, the initial level that fits the context best, or the common
/// initial level where none fits.
pub open spec fn spec_first_log_level(
    ll_set: dlt_env_ll_set,
    apid: [u8; 4],
    ctid: [u8; 4],
    loglevel: DltLogLevelType,
) -> i8 {
    if loglevel == DltLogLevelType::DLT_LOG_DEFAULT {
        spec_env_adjust_ll(ll_set.item@, apid, ctid, DLT_USER_INITIAL_LOG_LEVEL)
    } else {
        loglevel.code() as i8
    }
}

/// The trace status with which a context starts: the status asked for, or off where none
/// is asked for.
pub open spec fn spec_first_trace_status(tracestatus: DltTraceStatusType) -> i8 {
    if tracestatus == DltTraceStatusType::DLT_TRACE_STATUS_DEFAULT {
        DLT_USER_INITIAL_TRACE_STATUS
    } else {
        tracestatus.code() as i8
    }
}

impl DltUser {
    /// Registers a context of the application and gives its handle.
    ///
    /// Fails with `DLT_RETURN_WRONG_PARAMETER` where the id made from `contextid` is empty
    /// or the log level or the trace status is the range marker, else with
    /// `DLT_RETURN_ERROR` where no application is registered. Where the table holds a
    /// context with this id, its handle is given and nothing changes. Else the context is
    /// added at the end of the table; this fails with `DLT_RETURN_ERROR` where the table is
    /// full. A call that fails changes nothing.
    pub fn register_context(
        &mut self,
        contextid: &[u8],
        description: &[u8],
        loglevel: DltLogLevelType,
        tracestatus: DltTraceStatusType,
    ) -> (r: Result<DltContext, DltReturnValue>)
        requires
            old(self).wf(),
        ensures
            final(self).wf(),
            ({
                let id = spec_set_id(contextid@);
                let n = old(self).dlt_ll_ts@.len() as int;
                if id[0] == 0 || loglevel == DltLogLevelType::DLT_LOG_MAX || tracestatus
                    == DltTraceStatusType::DLT_TRACE_STATUS_MAX {
                    r matches Err(e) && e == DltReturnValue::DLT_RETURN_WRONG_PARAMETER && *final(self)
                        == *old(self)
                } else if !old(self).spec_app_registered() {
                    r matches Err(e) && e == DltReturnValue::DLT_RETURN_ERROR && *final(self) == *old(self)
                } else if exists|i: int| 0 <= i < n && old(self).dlt_ll_ts@[i].contextID@ == id {
                    r matches Ok(h) && *final(self) == *old(self) && h.contextID@ == id && h
                        == old(self).spec_handle(h.log_level_pos as int) && old(self).spec_handle_valid(h) && forall|i: int|
                        0 <= i < h.log_level_pos ==> old(self).dlt_ll_ts@[i].contextID@ != id
                } else if n >= old(self).dlt_ll_ts_max_num_entries {
                    r matches Err(e) && e == DltReturnValue::DLT_RETURN_ERROR && *final(self) == *old(self)
                } else {
                    &&& r matches Ok(h)
                    &&& h == final(self).spec_handle(n)
                    &&& final(self).spec_handle_valid(h)
                    &&& h.contextID@ == id
                    &&& final(self).dlt_ll_ts@.len() == n + 1
                    &&& final(self).dlt_ll_ts@.subrange(0, n) == old(self).dlt_ll_ts@
                    &&& final(self).dlt_ll_ts@[n].context_description@ == description@
                    &&& final(self).dlt_ll_ts@[n].injection_table@.len() == 0
                    &&& final(self).dlt_ll_ts@[n].log_level_changed_callback is None
                    &&& final(self).dlt_ll_ts@[n].trace_status == spec_first_trace_status(tracestatus)
                    &&& final(self).dlt_ll_ts@[n].log_level == spec_first_log_level(
                        old(self).initial_ll_set,
                        old(self).appID,
                        final(self).dlt_ll_ts@[n].contextID,
                        loglevel,
                    )
                }
            }),
            old(self).spec_same_but_contexts(final(self)),
    {
        let id = dlt_set_id(contextid);
        if id[0] == 0 {
            return Err(DltReturnValue::DLT_RETURN_WRONG_PARAMETER);
        }
        let level_code: c_int = c_int::from(loglevel);
        let status_code: c_int = c_int::from(tracestatus);
        if level_code == 7 || status_code == 2 {
            return Err(DltReturnValue::DLT_RETURN_WRONG_PARAMETER);
        }
        if self.appID[0] == 0 {
            return Err(DltReturnValue::DLT_RETURN_ERROR);
        }
        let at = self.find_context(&id);
        if at < self.dlt_ll_ts.len() {
            let handle = self.context_handle(at as i32);
            proof {
                assert(self.dlt_ll_ts@[at as int].contextID@ == id@);
                assert forall|i: int| 0 <= i < at implies self.dlt_ll_ts@[i].contextID@ != id@ by {
                    if self.dlt_ll_ts@[i].contextID@ == id@ {
                        assert(self.dlt_ll_ts@[i].contextID =~= id);
                    }
                }
            }
            return Ok(handle.unwrap());
        }
        proof {
            assert forall|i: int| 0 <= i < self.dlt_ll_ts@.len() implies self.dlt_ll_ts@[i].contextID@
                != id@ by {
                if self.dlt_ll_ts@[i].contextID@ == id@ {
                    assert(self.dlt_ll_ts@[i].contextID =~= id);
                }
            }
        }
        if self.dlt_ll_ts_num_entries >= self.dlt_ll_ts_max_num_entries {
            return Err(DltReturnValue::DLT_RETURN_ERROR);
        }
        let log_level: i8 = if level_code == -1 {
            dlt_env_adjust_ll_from_env(
                &self.initial_ll_set,
                &self.appID,
                &id,
                DLT_USER_INITIAL_LOG_LEVEL,
            )
        } else {
            level_code as i8
        };
        let trace_status: i8 = if status_code == -1 {
            DLT_USER_INITIAL_TRACE_STATUS
        } else {
            status_code as i8
        };
        let mut text: Vec<u8> = Vec::new();
        text.extend_from_slice(description);
        let pos = self.dlt_ll_ts_num_entries;
        self.dlt_ll_ts.push(
            dlt_ll_ts_type {
                contextID: id,
                log_level,
                trace_status,
                context_description: text,
                injection_table: Vec::new(),
                log_level_changed_callback: None,
            },
        );
        self.dlt_ll_ts_num_entries = pos + 1;
        assert(self.dlt_ll_ts@.subrange(0, pos as int) =~= old(self).dlt_ll_ts@);
        Ok(
            DltContext {
                contextID: id,
                log_level_pos: pos as i32,
                log_level_ptr: Some(log_level),
                trace_status_ptr: Some(trace_status),
                mcnt: 0,
            },
        )
    }

    /// Unregisters the context that a handle names: its place in the table is kept, with an
    /// empty id, no description and no callbacks, so that the other handles stay valid.
    /// Fails with `DLT_RETURN_WRONG_PARAMETER`, changing nothing, where the handle names no
    /// context of the table.
    pub fn unregister_context(&mut self, handle: &DltContext) -> (r: DltReturnValue)
        requires
            old(self).wf(),
        ensures
            final(self).wf(),
            !old(self).spec_handle_valid(*handle) ==> r == DltReturnValue::DLT_RETURN_WRONG_PARAMETER
                && *final(self) == *old(self),
            old(self).spec_handle_valid(*handle) ==> {
                let pos = handle.log_level_pos as int;
                &&& r == DltReturnValue::DLT_RETURN_OK
                &&& !final(self).spec_handle_valid(*handle)
                &&& final(self).dlt_ll_ts@.len() == old(self).dlt_ll_ts@.len()
                &&& final(self).dlt_ll_ts@[pos].contextID@ == seq![0u8, 0u8, 0u8, 0u8]
                &&& final(self).dlt_ll_ts@[pos].log_level == DLT_USER_INITIAL_LOG_LEVEL
                &&& final(self).dlt_ll_ts@[pos].trace_status == DLT_USER_INITIAL_TRACE_STATUS
                &&& final(self).dlt_ll_ts@[pos].context_description@.len() == 0
                &&& final(self).dlt_ll_ts@[pos].injection_table@.len() == 0
                &&& final(self).dlt_ll_ts@[pos].log_level_changed_callback is None
                &&& forall|i: int|
                    0 <= i < old(self).dlt_ll_ts@.len() && i != pos ==> final(self).dlt_ll_ts@[i]
                        == old(self).dlt_ll_ts@[i]
            },
            old(self).spec_same_but_contexts(final(self)),
    {
        let pos = handle.log_level_pos;
        if pos < 0 || pos as usize >= self.dlt_ll_ts.len() || handle.contextID[0] == 0 {
            return DltReturnValue::DLT_RETURN_WRONG_PARAMETER;
        }
        if !dlt_id_eq(&self.dlt_ll_ts[pos as usize].contextID, &handle.contextID) {
            return DltReturnValue::DLT_RETURN_WRONG_PARAMETER;
        }
        let cleared = dlt_ll_ts_type {
            contextID: [0u8; 4],
            log_level: DLT_USER_INITIAL_LOG_LEVEL,
            trace_status: DLT_USER_INITIAL_TRACE_STATUS,
            context_description: Vec::new(),
            injection_table: Vec::new(),
            log_level_changed_callback: None,
        };
        assert(cleared.contextID@ =~= seq![0u8, 0u8, 0u8, 0u8]);
        self.dlt_ll_ts[pos as usize] = cleared;
        DltReturnValue::DLT_RETURN_OK
    }

    /// Sets log level and trace status of the context at a position of the table, as the
    /// daemon asks for, and gives the record of the change with the key of the callback
    /// that the context has registered for such changes. Fails with
    /// `DLT_RETURN_WRONG_PARAMETER`, changing nothing, where the position lies outside the
    /// table.
    pub fn update_log_level(&mut self, log_level_pos: i32, log_level: i8, trace_status: i8) -> (r:
        Result<DltUserLogLevelChangedCallback, DltReturnValue>)
        requires
            old(self).wf(),
        ensures
            final(self).wf(),
            !(0 <= log_level_pos < old(self).dlt_ll_ts@.len()) ==> (r matches Err(e) && e
                == DltReturnValue::DLT_RETURN_WRONG_PARAMETER && *final(self) == *old(self)),
            0 <= log_level_pos < old(self).dlt_ll_ts@.len() ==> {
                let pos = log_level_pos as int;
                let before = old(self).dlt_ll_ts@[pos];
                let after = final(self).dlt_ll_ts@[pos];
                &&& r matches Ok(change)
                &&& change.contextID == before.contextID
                &&& change.log_level == log_level
                &&& change.trace_status == trace_status
                &&& change.log_level_changed_callback == before.log_level_changed_callback
                &&& final(self).dlt_ll_ts@.len() == old(self).dlt_ll_ts@.len()
                &&& after.log_level == log_level
                &&& after.trace_status == trace_status
                &&& after.contextID == before.contextID
                &&& after.context_description == before.context_description
                &&& after.injection_table == before.injection_table
                &&& after.log_level_changed_callback == before.log_level_changed_callback
                &&& final(self).spec_handle(pos).log_level_ptr == Some(log_level)
                &&& forall|i: int|
                    0 <= i < old(self).dlt_ll_ts@.len() && i != pos ==> final(self).dlt_ll_ts@[i]
                        == old(self).dlt_ll_ts@[i]
            },
            old(self).spec_same_but_contexts(final(self)),
    {
        if log_level_pos < 0 || log_level_pos as usize >= self.dlt_ll_ts.len() {
            return Err(DltReturnValue::DLT_RETURN_WRONG_PARAMETER);
        }
        let pos = log_level_pos as usize;
        let change = DltUserLogLevelChangedCallback {
            contextID: self.dlt_ll_ts[pos].contextID,
            log_level,
            trace_status,
            log_level_changed_callback: self.dlt_ll_ts[pos].log_level_changed_callback,
        };
        self.dlt_ll_ts[pos].log_level = log_level;
        self.dlt_ll_ts[pos].trace_status = trace_status;
        Ok(change)
    }

    /// Registers the callback that is to be called when log level or trace status of a
    /// context change, under the key by which the application finds the function. Fails
    /// with `DLT_RETURN_WRONG_PARAMETER`, changing nothing, where the handle names no context
    /// of the table.
    pub fn register_log_level_changed_callback(&mut self, handle: &DltContext, key: usize) -> (r:
        DltReturnValue)
        requires
            old(self).wf(),
        ensures
            final(self).wf(),
            !old(self).spec_handle_valid(*handle) ==> r == DltReturnValue::DLT_RETURN_WRONG_PARAMETER
                && *final(self) == *old(self),
            old(self).spec_handle_valid(*handle) ==> {
                let pos = handle.log_level_pos as int;
                let before = old(self).dlt_ll_ts@[pos];
                let after = final(self).dlt_ll_ts@[pos];
                &&& r == DltReturnValue::DLT_RETURN_OK
                &&& final(self).dlt_ll_ts@.len() == old(self).dlt_ll_ts@.len()
                &&& after.log_level_changed_callback == Some(key)
                &&& after.log_level == before.log_level
                &&& after.trace_status == before.trace_status
                &&& after.contextID == before.contextID
                &&& after.context_description == before.context_description
                &&& after.injection_table == before.injection_table
                &&& forall|i: int|
                    0 <= i < old(self).dlt_ll_ts@.len() && i != pos ==> final(self).dlt_ll_ts@[i]
                        == old(self).dlt_ll_ts@[i]
            },
            old(self).spec_same_but_contexts(final(self)),
    {
        if !self.handle_valid(handle) {
            return DltReturnValue::DLT_RETURN_WRONG_PARAMETER;
        }
        self.dlt_ll_ts[handle.log_level_pos as usize].log_level_changed_callback = Some(key);
        DltReturnValue::DLT_RETURN_OK
    }

    /// Whether a handle names a context of the table.
    pub fn handle_valid(&self, handle: &DltContext) -> (valid: bool)
        requires
            self.wf(),
        ensures
            valid == self.spec_handle_valid(*handle),
    {
        let pos = handle.log_level_pos;
        pos >= 0 && (pos as usize) < self.dlt_ll_ts.len() && handle.contextID[0] != 0 && dlt_id_eq(
            &self.dlt_ll_ts[pos as usize].contextID,
            &handle.contextID,
        )
    }

    /// The position in the injection table of a context of the first callback for a
    /// service, or the length of the table where there is none.
    pub open spec fn spec_find_injection(table: Seq<DltUserInjectionCallback>, service_id: u32, from: int) -> int
        decreases table.len() - from,
    {
        if from < 0 || from >= table.len() {
            table.len() as int
        } else if table[from].service_id == service_id {
            from
        } else {
            Self::spec_find_injection(table, service_id, from + 1)
        }
    }

    fn find_injection(table: &Vec<DltUserInjectionCallback>, service_id: u32) -> (at: usize)
        ensures
            at == Self::spec_find_injection(table@, service_id, 0),
            at <= table@.len(),
            at < table@.len() ==> table@[at as int].service_id == service_id,
            forall|i: int| 0 <= i < at ==> table@[i].service_id != service_id,
    {
        let mut i: usize = 0;
        while i < table.len()
            invariant
                i <= table@.len(),
                Self::spec_find_injection(table@, service_id, 0) == Self::spec_find_injection(
                    table@,
                    service_id,
                    i as int,
                ),
                forall|j: int| 0 <= j < i ==> table@[j].service_id != service_id,
            decreases table@.len() - i,
        {
            if table[i].service_id == service_id {
                return i;
            }
            i += 1;
        }
        i
    }

    /// Registers the callback for injection messages of a service in a context, under the
    /// key by which the application finds the function.
    ///
    /// Where the context has a callback for the service, the key takes its place; else the
    /// service is added at the end of the injection table of the context. Fails with
    /// `DLT_RETURN_WRONG_PARAMETER`, changing nothing, where the service id is below
    /// `DLT_USER_INJECTION_MIN` or the handle names no context of the table.
    pub fn register_injection_callback(&mut self, handle: &DltContext, service_id: u32, key: usize) -> (r:
        DltReturnValue)
        requires
            old(self).wf(),
        ensures
            final(self).wf(),
            !(old(self).spec_handle_valid(*handle) && service_id >= DLT_USER_INJECTION_MIN) ==> r
                == DltReturnValue::DLT_RETURN_WRONG_PARAMETER && *final(self) == *old(self),
            old(self).spec_handle_valid(*handle) && service_id >= DLT_USER_INJECTION_MIN ==> {
                let pos = handle.log_level_pos as int;
                let before = old(self).dlt_ll_ts@[pos];
                let after = final(self).dlt_ll_ts@[pos];
                let at = Self::spec_find_injection(before.injection_table@, service_id, 0);
                let entry = DltUserInjectionCallback { service_id, injection_callback: Some(key) };
                &&& r == DltReturnValue::DLT_RETURN_OK
                &&& final(self).dlt_ll_ts@.len() == old(self).dlt_ll_ts@.len()
                &&& after.injection_table@ == (if at < before.injection_table@.len() {
                    before.injection_table@.update(at, entry)
                } else {
                    before.injection_table@.push(entry)
                })
                &&& after.log_level_changed_callback == before.log_level_changed_callback
                &&& after.log_level == before.log_level
                &&& after.trace_status == before.trace_status
                &&& after.contextID == before.contextID
                &&& after.context_description == before.context_description
                &&& forall|i: int|
                    0 <= i < old(self).dlt_ll_ts@.len() && i != pos ==> final(self).dlt_ll_ts@[i]
                        == old(self).dlt_ll_ts@[i]
            },
            old(self).spec_same_but_contexts(final(self)),
    {
        if service_id < DLT_USER_INJECTION_MIN || !self.handle_valid(handle) {
            return DltReturnValue::DLT_RETURN_WRONG_PARAMETER;
        }
        let pos = handle.log_level_pos as usize;
        let entry = DltUserInjectionCallback { service_id, injection_callback: Some(key) };
        let at = Self::find_injection(&self.dlt_ll_ts[pos].injection_table, service_id);
        if at < self.dlt_ll_ts[pos].injection_table.len() {
            self.dlt_ll_ts[pos].injection_table[at] = entry;
        } else {
            self.dlt_ll_ts[pos].injection_table.push(entry);
        }
        DltReturnValue::DLT_RETURN_OK
    }

    /// The key of the callback that the context at a position of the table has registered
    /// for injection messages of a service; `None` where the position lies outside the
    /// table or the context has none for the service.
    pub fn injection_callback(&self, log_level_pos: i32, service_id: u32) -> (key: Option<usize>)
        requires
            self.wf(),
        ensures
            key == (if 0 <= log_level_pos < self.dlt_ll_ts@.len() {
                let table = self.dlt_ll_ts@[log_level_pos as int].injection_table@;
                let at = Self::spec_find_injection(table, service_id, 0);
                if at < table.len() {
                    table[at].injection_callback
                } else {
                    None
                }
            } else {
                None
            }),
    {
        if log_level_pos < 0 || log_level_pos as usize >= self.dlt_ll_ts.len() {
            return None;
        }
        let table = &self.dlt_ll_ts[log_level_pos as usize].injection_table;
        let at = Self::find_injection(table, service_id);
        if at < table.len() {
            table[at].injection_callback
        } else {
            None
        }
    }

    /// Counts a message that was lost: the overflow marker is set and the counter of lost
    /// messages is raised by one, held at the largest 32-bit number.
    pub fn count_overflow(&mut self)
        ensures
            final(self).overflow == 1,
            final(self).overflow_counter == (if old(self).overflow_counter == u32::MAX {
                u32::MAX
            } else {
                (old(self).overflow_counter + 1) as u32
            }),
            old(self).spec_same_but_overflow(final(self)),
    {
        self.overflow = 1;
        if self.overflow_counter < u32::MAX {
            self.overflow_counter = self.overflow_counter + 1;
        }
    }

    /// Clears the overflow marker and the counter of lost messages, and gives the number
    /// of messages that were lost since they were last cleared.
    pub fn take_overflow_counter(&mut self) -> (lost: u32)
        ensures
            lost == old(self).overflow_counter,
            final(self).overflow == 0,
            final(self).overflow_counter == 0,
            old(self).spec_same_but_overflow(final(self)),
    {
        let lost = self.overflow_counter;
        self.overflow = 0;
        self.overflow_counter = 0;
        lost
    }

    /// Puts a message, made of up to three pieces, into the buffer that holds messages
    /// while the daemon cannot take them.
    ///
    /// Where the buffer does not take the message, the message is lost: it is counted as
    /// `count_overflow` says and the call gives `DLT_RETURN_BUFFER_FULL`; the buffer is as it
    /// was. Else the call gives `DLT_RETURN_OK` and the message is the newest entry of the
    /// buffer.
    pub fn buffer_message(&mut self, data1: &[u8], data2: &[u8], data3: &[u8]) -> (r: DltReturnValue)
        ensures
            ({
                let buffer = old(self).startup_buffer;
                let data = data1@ + data2@ + data3@;
                let taken = buffer.spec_attached() && buffer.spec_counters_ok() && buffer.spec_count()
                    + 1 < 0x7fff_ffff && buffer.spec_size_for(data.len() as int) is Some;
                if taken {
                    &&& r == DltReturnValue::DLT_RETURN_OK
                    &&& final(self).overflow == old(self).overflow
                    &&& final(self).overflow_counter == old(self).overflow_counter
                    &&& final(self).startup_buffer.spec_attached()
                    &&& final(self).startup_buffer.spec_counters_ok()
                    &&& final(self).startup_buffer.size == buffer.spec_size_for(
                        data.len() as int,
                    )->Some_0
                    &&& final(self).startup_buffer.min_size == buffer.min_size
                    &&& final(self).startup_buffer.max_size == buffer.max_size
                    &&& final(self).startup_buffer.step_size == buffer.step_size
                    &&& final(self).startup_buffer.spec_count() == buffer.spec_count() + 1
                    &&& final(self).startup_buffer.spec_content() == buffer.spec_content()
                        + spec_block(data)
                    &&& buffer.spec_entries() matches Some(q) ==> final(self).startup_buffer.spec_entries() == Some(q.push(data))
                } else {
                    &&& r == DltReturnValue::DLT_RETURN_BUFFER_FULL
                    &&& final(self).startup_buffer == old(self).startup_buffer
                    &&& final(self).overflow == 1
                    &&& final(self).overflow_counter == (if old(self).overflow_counter == u32::MAX {
                        u32::MAX
                    } else {
                        (old(self).overflow_counter + 1) as u32
                    })
                }
            }),
            old(self).spec_same_but_buffered(final(self)),
    {
        match self.startup_buffer.push3(data1, data2, data3) {
            DltReturnValue::DLT_RETURN_OK => DltReturnValue::DLT_RETURN_OK,
            _ => {
                self.count_overflow();
                DltReturnValue::DLT_RETURN_BUFFER_FULL
            },
        }
    }
}

/// This structure is used for context data used in an application
#[derive(Debug, Clone, PartialEq, Eq)]
pub struct DltContextData {
    /// The context that the message belongs to
    pub handle: Option<DltContext>,
    /// Buffer for building log message
    pub buffer: Vec<u8>,
    /// Payload size
    pub size: usize,
    /// Log level
    pub log_level: i32,
    /// Trace status
    pub trace_status: i32,
    /// Number of arguments for extended header
    pub args_num: i32,
    /// Description of context
    pub context_description: Option<Vec<u8>>,
}

/// An argument as it stands in a verbose payload that is written least significant byte
/// first: the type info, and behind it the value.
pub open spec fn spec_argument(type_info: u32, value: Seq<u8>) -> Seq<u8> {
    spec_u32_le(type_info) + value
}

/// The value of a string or raw argument: the length in two bytes, then the bytes; a
/// string is closed by a zero byte, which its length counts.
pub open spec fn spec_counted(data: Seq<u8>, terminated: bool) -> Seq<u8> {
    if terminated {
        spec_u16_le((data.len() + 1) as u16) + data + seq![0u8]
    } else {
        spec_u16_le(data.len() as u16) + data
    }
}

impl DltContextData {
    /// The data of a message is well formed when its size is that of its buffer, within
    /// the largest user buffer, and its argument count is not negative.
    pub open spec fn wf(&self) -> bool {
        &&& self.size == self.buffer@.len()
        &&& self.size <= DLT_USER_BUF_MAX_SIZE
        &&& 0 <= self.args_num
    }

    /// Whether the data of the message is well formed.
    pub fn is_wf(&self) -> (ok: bool)
        ensures
            ok == self.wf(),
    {
        self.size == self.buffer.len() && self.size <= DLT_USER_BUF_MAX_SIZE && self.args_num >= 0
    }

    /// The data with one more argument written behind those it holds.
    pub open spec fn spec_with(&self, arg: Seq<u8>, after: &DltContextData) -> bool {
        &&& after.wf()
        &&& after.buffer@ == self.buffer@ + arg
        &&& after.args_num == self.args_num + 1
        &&& after.handle == self.handle
        &&& after.log_level == self.log_level
        &&& after.trace_status == self.trace_status
        &&& after.context_description == self.context_description
    }

    /// Whether one more argument of `n` bytes fits.
    pub open spec fn spec_fits(&self, n: int) -> bool {
        self.size + n <= DLT_USER_BUF_MAX_SIZE && self.args_num < 0x7fff_ffff
    }

    fn append(&mut self, arg: &Vec<u8>) -> (r: DltReturnValue)
        requires
            old(self).wf(),
        ensures
            final(self).wf(),
            old(self).spec_fits(arg@.len() as int) ==> r == DltReturnValue::DLT_RETURN_OK && old(self).spec_with(arg@, final(self)),
            !old(self).spec_fits(arg@.len() as int) ==> r
                == DltReturnValue::DLT_RETURN_USER_BUFFER_FULL && *final(self) == *old(self),
    {
        if arg.len() > DLT_USER_BUF_MAX_SIZE - self.size || self.args_num >= 0x7fff_ffff {
            return DltReturnValue::DLT_RETURN_USER_BUFFER_FULL;
        }
        self.buffer.extend_from_slice(arg.as_slice());
        self.size = self.size + arg.len();
        self.args_num = self.args_num + 1;
        assert(self.buffer@ == old(self).buffer@ + arg@);
        DltReturnValue::DLT_RETURN_OK
    }

    fn append_counted(&mut self, type_info: u32, data: &[u8], terminated: bool) -> (r:
        DltReturnValue)
        requires
            old(self).wf(),
        ensures
            final(self).wf(),
            ({
                let arg = spec_argument(type_info, spec_counted(data@, terminated));
                if data@.len() < 0xffff && old(self).spec_fits(arg.len() as int) {
                    r == DltReturnValue::DLT_RETURN_OK && old(self).spec_with(arg, final(self))
                } else {
                    r == DltReturnValue::DLT_RETURN_USER_BUFFER_FULL && *final(self) == *old(self)
                }
            }),
    {
        if data.len() >= 0xffff {
            return DltReturnValue::DLT_RETURN_USER_BUFFER_FULL;
        }
        let mut arg: Vec<u8> = Vec::new();
        push_u32(&mut arg, type_info, false);
        if terminated {
            push_u16_le(&mut arg, (data.len() + 1) as u16);
            arg.extend_from_slice(data);
            arg.push(0);
        } else {
            push_u16_le(&mut arg, data.len() as u16);
            arg.extend_from_slice(data);
        }
        assert(arg@ =~= spec_argument(type_info, spec_counted(data@, terminated)));
        self.append(&arg)
    }

    fn append_value(&mut self, type_info: u32, value: &Vec<u8>) -> (r: DltReturnValue)
        requires
            old(self).wf(),
        ensures
            final(self).wf(),
            ({
                let arg = spec_argument(type_info, value@);
                if old(self).spec_fits(arg.len() as int) {
                    r == DltReturnValue::DLT_RETURN_OK && old(self).spec_with(arg, final(self))
                } else {
                    r == DltReturnValue::DLT_RETURN_USER_BUFFER_FULL && *final(self) == *old(self)
                }
            }),
    {
        if value.len() > DLT_USER_BUF_MAX_SIZE {
            return DltReturnValue::DLT_RETURN_USER_BUFFER_FULL;
        }
        let mut arg: Vec<u8> = Vec::new();
        push_u32(&mut arg, type_info, false);
        arg.extend_from_slice(value.as_slice());
        assert(arg@ =~= spec_argument(type_info, value@));
        self.append(&arg)
    }
}

/// Starts a message of a log level in a context.
///
/// Gives the data of the message, with no argument yet, where the level is enabled in the
/// context. Fails with what `dlt_user_is_logLevel_enabled` gives otherwise:
/// `DLT_RETURN_WRONG_PARAMETER` or `DLT_RETURN_LOGGING_DISABLED`.
pub fn dlt_user_log_write_start(handle: Option<&DltContext>, loglevel: DltLogLevelType) -> (r:
    Result<DltContextData, DltReturnValue>)
    ensures
        ({
            let h = match handle {
                Some(h) => Some(*h),
                None => None,
            };
            let enabled = spec_is_log_level_enabled(h, loglevel);
            if enabled == DltReturnValue::DLT_RETURN_TRUE {
                &&& r matches Ok(log)
                &&& log.wf()
                &&& log.handle == h
                &&& log.buffer@.len() == 0
                &&& log.args_num == 0
                &&& log.log_level == loglevel.code()
                &&& log.trace_status == 0
                &&& log.context_description is None
            } else {
                r matches Err(e) && e == enabled
            }
        }),
{
    match dlt_user_is_logLevel_enabled(handle, loglevel) {
        DltReturnValue::DLT_RETURN_TRUE => {
            let h = match handle {
                Some(h) => Some(*h),
                None => None,
            };
            Ok(
                DltContextData {
                    handle: h,
                    buffer: Vec::new(),
                    size: 0,
                    log_level: c_int::from(loglevel),
                    trace_status: 0,
                    args_num: 0,
                    context_description: None,
                },
            )
        },
        other => Err(other),
    }
}

/// Writes a string of ASCII characters as the next argument: the type info of such a
/// string, its length with the closing zero byte in two bytes, its bytes, and a zero byte.
/// Fails with `DLT_RETURN_USER_BUFFER_FULL`, changing nothing, where the argument does not
/// fit into the buffer or the length does not fit into two bytes.
pub fn dlt_user_log_write_string(log: &mut DltContextData, text: &[u8]) -> (r: DltReturnValue)
    requires
        old(log).wf(),
    ensures
        final(log).wf(),
        ({
            let arg = spec_argument(0x200, spec_counted(text@, true));
            if text@.len() < 0xffff && old(log).spec_fits(arg.len() as int) {
                r == DltReturnValue::DLT_RETURN_OK && old(log).spec_with(arg, final(log))
            } else {
                r == DltReturnValue::DLT_RETURN_USER_BUFFER_FULL && *final(log) == *old(log)
            }
        }),
{
    log.append_counted(0x200, text, true)
}

/// Writes a string as `dlt_user_log_write_string` does; the text is never changed.
pub fn dlt_user_log_write_constant_string(log: &mut DltContextData, text: &[u8]) -> (r:
    DltReturnValue)
    requires
        old(log).wf(),
    ensures
        final(log).wf(),
        ({
            let arg = spec_argument(0x200, spec_counted(text@, true));
            if text@.len() < 0xffff && old(log).spec_fits(arg.len() as int) {
                r == DltReturnValue::DLT_RETURN_OK && old(log).spec_with(arg, final(log))
            } else {
                r == DltReturnValue::DLT_RETURN_USER_BUFFER_FULL && *final(log) == *old(log)
            }
        }),
{
    dlt_user_log_write_string(log, text)
}

/// Writes a string of UTF-8 characters as the next argument, as
/// `dlt_user_log_write_string` does but with the type info of such a string.
pub fn dlt_user_log_write_utf8_string(log: &mut DltContextData, text: &[u8]) -> (r: DltReturnValue)
    requires
        old(log).wf(),
    ensures
        final(log).wf(),
        ({
            let arg = spec_argument(0x8200, spec_counted(text@, true));
            if text@.len() < 0xffff && old(log).spec_fits(arg.len() as int) {
                r == DltReturnValue::DLT_RETURN_OK && old(log).spec_with(arg, final(log))
            } else {
                r == DltReturnValue::DLT_RETURN_USER_BUFFER_FULL && *final(log) == *old(log)
            }
        }),
{
    log.append_counted(0x8200, text, true)
}

/// Writes raw data as the next argument: the type info of raw data, the length in two
/// bytes, and the bytes. Fails with `DLT_RETURN_USER_BUFFER_FULL`, changing nothing, where
/// the argument does not fit into the buffer or the length does not fit into two bytes.
pub fn dlt_user_log_write_raw(log: &mut DltContextData, data: &[u8]) -> (r: DltReturnValue)
    requires
        old(log).wf(),
    ensures
        final(log).wf(),
        ({
            let arg = spec_argument(0x400, spec_counted(data@, false));
            if data@.len() < 0xffff && old(log).spec_fits(arg.len() as int) {
                r == DltReturnValue::DLT_RETURN_OK && old(log).spec_with(arg, final(log))
            } else {
                r == DltReturnValue::DLT_RETURN_USER_BUFFER_FULL && *final(log) == *old(log)
            }
        }),
{
    log.append_counted(0x400, data, false)
}

/// Writes a boolean as the next argument: the type info of an 8-bit boolean and the byte.
/// Fails with `DLT_RETURN_USER_BUFFER_FULL`, changing nothing, where it does not fit.
pub fn dlt_user_log_write_bool(log: &mut DltContextData, data: u8) -> (r: DltReturnValue)
    requires
        old(log).wf(),
    ensures
        final(log).wf(),
        ({
            let arg = spec_argument(0x11, seq![data]);
            if old(log).spec_fits(arg.len() as int) {
                r == DltReturnValue::DLT_RETURN_OK && old(log).spec_with(arg, final(log))
            } else {
                r == DltReturnValue::DLT_RETURN_USER_BUFFER_FULL && *final(log) == *old(log)
            }
        }),
{
    let mut value: Vec<u8> = Vec::new();
    value.push(data);
    assert(value@ =~= seq![data]);
    log.append_value(0x11, &value)
}

/// Writes an unsigned 8-bit number as the next argument.
/// Fails with `DLT_RETURN_USER_BUFFER_FULL`, changing nothing, where it does not fit.
pub fn dlt_user_log_write_uint8(log: &mut DltContextData, data: u8) -> (r: DltReturnValue)
    requires
        old(log).wf(),
    ensures
        final(log).wf(),
        ({
            let arg = spec_argument(0x41, seq![data]);
            if old(log).spec_fits(arg.len() as int) {
                r == DltReturnValue::DLT_RETURN_OK && old(log).spec_with(arg, final(log))
            } else {
                r == DltReturnValue::DLT_RETURN_USER_BUFFER_FULL && *final(log) == *old(log)
            }
        }),
{
    let mut value: Vec<u8> = Vec::new();
    value.push(data);
    assert(value@ =~= seq![data]);
    log.append_value(0x41, &value)
}

/// Writes an unsigned 16-bit number as the next argument, least significant byte first.
/// Fails with `DLT_RETURN_USER_BUFFER_FULL`, changing nothing, where it does not fit.
pub fn dlt_user_log_write_uint16(log: &mut DltContextData, data: u16) -> (r: DltReturnValue)
    requires
        old(log).wf(),
    ensures
        final(log).wf(),
        ({
            let arg = spec_argument(0x42, spec_u16_le(data));
            if old(log).spec_fits(arg.len() as int) {
                r == DltReturnValue::DLT_RETURN_OK && old(log).spec_with(arg, final(log))
            } else {
                r == DltReturnValue::DLT_RETURN_USER_BUFFER_FULL && *final(log) == *old(log)
            }
        }),
{
    let mut value: Vec<u8> = Vec::new();
    push_u16_le(&mut value, data);
    assert(value@ =~= spec_u16_le(data));
    log.append_value(0x42, &value)
}

/// Writes an unsigned 32-bit number as the next argument, least significant byte first.
/// Fails with `DLT_RETURN_USER_BUFFER_FULL`, changing nothing, where it does not fit.
pub fn dlt_user_log_write_uint32(log: &mut DltContextData, data: u32) -> (r: DltReturnValue)
    requires
        old(log).wf(),
    ensures
        final(log).wf(),
        ({
            let arg = spec_argument(0x43, spec_u32_le(data));
            if old(log).spec_fits(arg.len() as int) {
                r == DltReturnValue::DLT_RETURN_OK && old(log).spec_with(arg, final(log))
            } else {
                r == DltReturnValue::DLT_RETURN_USER_BUFFER_FULL && *final(log) == *old(log)
            }
        }),
{
    let mut value: Vec<u8> = Vec::new();
    push_u32(&mut value, data, false);
    assert(value@ =~= spec_u32_le(data));
    log.append_value(0x43, &value)
}

/// Writes an unsigned 64-bit number as the next argument, least significant byte first.
/// Fails with `DLT_RETURN_USER_BUFFER_FULL`, changing nothing, where it does not fit.
pub fn dlt_user_log_write_uint64(log: &mut DltContextData, data: u64) -> (r: DltReturnValue)
    requires
        old(log).wf(),
    ensures
        final(log).wf(),
        ({
            let arg = spec_argument(0x44, spec_u64_le(data));
            if old(log).spec_fits(arg.len() as int) {
                r == DltReturnValue::DLT_RETURN_OK && old(log).spec_with(arg, final(log))
            } else {
                r == DltReturnValue::DLT_RETURN_USER_BUFFER_FULL && *final(log) == *old(log)
            }
        }),
{
    let mut value: Vec<u8> = Vec::new();
    push_u64_le(&mut value, data);
    assert(value@ =~= spec_u64_le(data));
    log.append_value(0x44, &value)
}

/// Writes a signed 8-bit number as the next argument, in two's complement.
/// Fails with `DLT_RETURN_USER_BUFFER_FULL`, changing nothing, where it does not fit.
pub fn dlt_user_log_write_int8(log: &mut DltContextData, data: i8) -> (r: DltReturnValue)
    requires
        old(log).wf(),
    ensures
        final(log).wf(),
        ({
            let arg = spec_argument(0x21, seq![spec_i8_bits(data)]);
            if old(log).spec_fits(arg.len() as int) {
                r == DltReturnValue::DLT_RETURN_OK && old(log).spec_with(arg, final(log))
            } else {
                r == DltReturnValue::DLT_RETURN_USER_BUFFER_FULL && *final(log) == *old(log)
            }
        }),
{
    let mut value: Vec<u8> = Vec::new();
    value.push(i8_to_bits(data));
    assert(value@ =~= seq![spec_i8_bits(data)]);
    log.append_value(0x21, &value)
}

/// Writes a signed 16-bit number as the next argument, in two's complement, least
/// significant byte first.
/// Fails with `DLT_RETURN_USER_BUFFER_FULL`, changing nothing, where it does not fit.
pub fn dlt_user_log_write_int16(log: &mut DltContextData, data: i16) -> (r: DltReturnValue)
    requires
        old(log).wf(),
    ensures
        final(log).wf(),
        ({
            let arg = spec_argument(0x22, spec_u16_le(spec_i16_bits(data)));
            if old(log).spec_fits(arg.len() as int) {
                r == DltReturnValue::DLT_RETURN_OK && old(log).spec_with(arg, final(log))
            } else {
                r == DltReturnValue::DLT_RETURN_USER_BUFFER_FULL && *final(log) == *old(log)
            }
        }),
{
    let mut value: Vec<u8> = Vec::new();
    push_u16_le(&mut value, i16_to_bits(data));
    assert(value@ =~= spec_u16_le(spec_i16_bits(data)));
    log.append_value(0x22, &value)
}

/// Writes a signed 32-bit number as the next argument, in two's complement, least
/// significant byte first.
/// Fails with `DLT_RETURN_USER_BUFFER_FULL`, changing nothing, where it does not fit.
pub fn dlt_user_log_write_int32(log: &mut DltContextData, data: i32) -> (r: DltReturnValue)
    requires
        old(log).wf(),
    ensures
        final(log).wf(),
        ({
            let arg = spec_argument(0x23, spec_u32_le(spec_i32_bits(data)));
            if old(log).spec_fits(arg.len() as int) {
                r == DltReturnValue::DLT_RETURN_OK && old(log).spec_with(arg, final(log))
            } else {
                r == DltReturnValue::DLT_RETURN_USER_BUFFER_FULL && *final(log) == *old(log)
            }
        }),
{
    let mut value: Vec<u8> = Vec::new();
    push_u32(&mut value, i32_to_bits(data), false);
    assert(value@ =~= spec_u32_le(spec_i32_bits(data)));
    log.append_value(0x23, &value)
}

/// Writes a signed 64-bit number as the next argument, in two's complement, least
/// significant byte first.
/// Fails with `DLT_RETURN_USER_BUFFER_FULL`, changing nothing, where it does not fit.
pub fn dlt_user_log_write_int64(log: &mut DltContextData, data: i64) -> (r: DltReturnValue)
    requires
        old(log).wf(),
    ensures
        final(log).wf(),
        ({
            let arg = spec_argument(0x24, spec_u64_le(spec_i64_bits(data)));
            if old(log).spec_fits(arg.len() as int) {
                r == DltReturnValue::DLT_RETURN_OK && old(log).spec_with(arg, final(log))
            } else {
                r == DltReturnValue::DLT_RETURN_USER_BUFFER_FULL && *final(log) == *old(log)
            }
        }),
{
    let mut value: Vec<u8> = Vec::new();
    push_u64_le(&mut value, i64_to_bits(data));
    assert(value@ =~= spec_u64_le(spec_i64_bits(data)));
    log.append_value(0x24, &value)
}

/// The message info of a log message: message type log, the log level in the upper four
/// bits, and the verbose bit.
pub open spec fn spec_msin_log(log_level: i32, verbose: bool) -> u8 {
    ((log_level as int % 16) * 16 + (if verbose {
        1int
    } else {
        0int
    })) as u8
}

impl DltContext {
    /// Raises the message counter of the context by one; behind 255 it starts again at
    /// zero.
    pub fn count_message(&mut self)
        ensures
            final(self).mcnt == (if old(self).mcnt == 255 {
                0
            } else {
                old(self).mcnt + 1
            }),
            final(self).contextID == old(self).contextID,
            final(self).log_level_pos == old(self).log_level_pos,
            final(self).log_level_ptr == old(self).log_level_ptr,
            final(self).trace_status_ptr == old(self).trace_status_ptr,
    {
        self.mcnt = if self.mcnt == 255 {
            0
        } else {
            self.mcnt + 1
        };
    }
}

/// Finishes a message: puts the arguments written so far under the headers that the
/// session asks for.
///
/// The message has no storage header. Its header type carries protocol version 1, least
/// significant byte first, and announces the ECU id, the session id and the timestamp as
/// the session is set up for them; it announces an extended header in verbose mode, and
/// otherwise where the session uses one for non-verbose messages. The counter is that of
/// the context the message was started in. The extended header names the application and
/// the context, counts the arguments modulo 256, and marks a log message of the level the
/// message was started with. Fails with `DLT_RETURN_WRONG_PARAMETER` where the message was
/// started in no context, and with `DLT_RETURN_ERROR` where no application is registered.
pub fn dlt_user_log_write_finish(user: &DltUser, log: &DltContextData, seid: u32, tmsp: u32) -> (r:
    Result<DltMessage, DltReturnValue>)
    requires
        log.wf(),
    ensures
        log.handle is None ==> (r matches Err(e) && e == DltReturnValue::DLT_RETURN_WRONG_PARAMETER),
        log.handle is Some && !user.spec_app_registered() ==> (r matches Err(e) && e
            == DltReturnValue::DLT_RETURN_ERROR),
        log.handle is Some && user.spec_app_registered() ==> (r matches Ok(m) && {
            let htyp = m.standardheader.htyp;
            let ueh = user.verbose_mode != 0 || user.use_extende_header_for_non_verbose != 0;
            &&& m@.wf()
            &&& !m.found_serialheader
            &&& m.resync_offset == 0
            &&& m.storageheader == DltStorageHeader::spec_empty()
            &&& crate::dlt_protocol::spec_htyp_version(htyp) == 1
            &&& !crate::dlt_protocol::spec_htyp_msbf(htyp)
            &&& crate::dlt_protocol::spec_htyp_ueh(htyp) == ueh
            &&& crate::dlt_protocol::spec_htyp_weid(htyp) == (user.with_ecu_id != 0)
            &&& crate::dlt_protocol::spec_htyp_wsid(htyp) == (user.with_session_id != 0)
            &&& crate::dlt_protocol::spec_htyp_wtms(htyp) == (user.with_timestamp != 0)
            &&& m.standardheader.mcnt == log.handle->Some_0.mcnt
            &&& m@.payload == log.buffer@
            &&& (user.with_ecu_id != 0 ==> m.headerextra.ecu == user.ecuID)
            &&& (user.with_session_id != 0 ==> m.headerextra.seid == seid)
            &&& (user.with_timestamp != 0 ==> m.headerextra.tmsp == tmsp)
            &&& (ueh ==> m.extendedheader == DltExtendedHeader {
                msin: spec_msin_log(log.log_level, user.verbose_mode != 0),
                noar: (log.args_num % 256) as u8,
                apid: user.appID,
                ctid: log.handle->Some_0.contextID,
            })
        }),
{
    let handle = match log.handle {
        None => {
            return Err(DltReturnValue::DLT_RETURN_WRONG_PARAMETER);
        },
        Some(h) => h,
    };
    if user.appID[0] == 0 {
        return Err(DltReturnValue::DLT_RETURN_ERROR);
    }
    let verbose = user.verbose_mode != 0;
    let htyp = dlt_htyp(
        verbose || user.use_extende_header_for_non_verbose != 0,
        false,
        user.with_ecu_id != 0,
        user.with_session_id != 0,
        user.with_timestamp != 0,
    );
    let level: i64 = log.log_level as i64;
    let mtin: i64 = if level >= 0 {
        level % 16
    } else {
        (16 - ((-level) % 16)) % 16
    };
    let msin: u8 = (mtin * 16 + (if verbose {
        1
    } else {
        0
    })) as u8;
    let extended = DltExtendedHeader {
        msin,
        noar: (log.args_num % 256) as u8,
        apid: user.appID,
        ctid: handle.contextID,
    };
    let extra = DltStandardHeaderExtra { ecu: user.ecuID, seid, tmsp };
    let mut payload: Vec<u8> = Vec::new();
    payload.extend_from_slice(log.buffer.as_slice());
    assert(payload@ =~= log.buffer@);
    DltMessage::compose(DltStorageHeader::empty(), htyp, handle.mcnt, extra, extended, payload)
}

/// The string coding bits that a format adds to the type info of a number or of raw data:
/// those of hexadecimal coding for the hexadecimal formats, those of binary coding for the
/// binary formats, and none for the default format. `None` for the range marker, which is
/// no format.
pub open spec fn spec_format_bits(format: DltFormatType) -> Option<u32> {
    match format {
        DltFormatType::DLT_FORMAT_DEFAULT => Some(0u32),
        DltFormatType::DLT_FORMAT_HEX8 => Some(0x10000u32),
        DltFormatType::DLT_FORMAT_HEX16 => Some(0x10000u32),
        DltFormatType::DLT_FORMAT_HEX32 => Some(0x10000u32),
        DltFormatType::DLT_FORMAT_HEX64 => Some(0x10000u32),
        DltFormatType::DLT_FORMAT_BIN8 => Some(0x18000u32),
        DltFormatType::DLT_FORMAT_BIN16 => Some(0x18000u32),
        DltFormatType::DLT_FORMAT_MAX => None,
    }
}

/// The string coding bits that a format adds to a type info, see `spec_format_bits`.
pub fn dlt_format_bits(format: DltFormatType) -> (bits: Option<u32>)
    ensures
        bits == spec_format_bits(format),
{
    match format {
        DltFormatType::DLT_FORMAT_DEFAULT => Some(0),
        DltFormatType::DLT_FORMAT_HEX8 => Some(0x10000),
        DltFormatType::DLT_FORMAT_HEX16 => Some(0x10000),
        DltFormatType::DLT_FORMAT_HEX32 => Some(0x10000),
        DltFormatType::DLT_FORMAT_HEX64 => Some(0x10000),
        DltFormatType::DLT_FORMAT_BIN8 => Some(0x18000),
        DltFormatType::DLT_FORMAT_BIN16 => Some(0x18000),
        DltFormatType::DLT_FORMAT_MAX => None,
    }
}

/// Writes an unsigned 8-bit number as the next argument, to be shown in a format.
/// Fails with `DLT_RETURN_WRONG_PARAMETER` where the format is the range marker and with
/// `DLT_RETURN_USER_BUFFER_FULL` where the argument does not fit; then nothing changes.
pub fn dlt_user_log_write_uint8_formatted(log: &mut DltContextData, data: u8, format: DltFormatType) -> (r:
    DltReturnValue)
    requires
        old(log).wf(),
    ensures
        final(log).wf(),
        match spec_format_bits(format) {
            None => r == DltReturnValue::DLT_RETURN_WRONG_PARAMETER && *final(log) == *old(log),
            Some(bits) => {
                let arg = spec_argument((0x41 + bits) as u32, seq![data]);
                if old(log).spec_fits(arg.len() as int) {
                    r == DltReturnValue::DLT_RETURN_OK && old(log).spec_with(arg, final(log))
                } else {
                    r == DltReturnValue::DLT_RETURN_USER_BUFFER_FULL && *final(log) == *old(log)
                }
            },
        },
{
    match dlt_format_bits(format) {
        None => DltReturnValue::DLT_RETURN_WRONG_PARAMETER,
        Some(bits) => {
            let mut value: Vec<u8> = Vec::new();
            value.push(data);
            assert(value@ =~= seq![data]);
            log.append_value(0x41 + bits, &value)
        },
    }
}

/// Writes an unsigned 16-bit number as the next argument, to be shown in a format.
/// Fails with `DLT_RETURN_WRONG_PARAMETER` where the format is the range marker and with
/// `DLT_RETURN_USER_BUFFER_FULL` where the argument does not fit; then nothing changes.
pub fn dlt_user_log_write_uint16_formatted(log: &mut DltContextData, data: u16, format: DltFormatType) -> (r:
    DltReturnValue)
    requires
        old(log).wf(),
    ensures
        final(log).wf(),
        match spec_format_bits(format) {
            None => r == DltReturnValue::DLT_RETURN_WRONG_PARAMETER && *final(log) == *old(log),
            Some(bits) => {
                let arg = spec_argument((0x42 + bits) as u32, spec_u16_le(data));
                if old(log).spec_fits(arg.len() as int) {
                    r == DltReturnValue::DLT_RETURN_OK && old(log).spec_with(arg, final(log))
                } else {
                    r == DltReturnValue::DLT_RETURN_USER_BUFFER_FULL && *final(log) == *old(log)
                }
            },
        },
{
    match dlt_format_bits(format) {
        None => DltReturnValue::DLT_RETURN_WRONG_PARAMETER,
        Some(bits) => {
            let mut value: Vec<u8> = Vec::new();
            push_u16_le(&mut value, data);
            assert(value@ =~= spec_u16_le(data));
            log.append_value(0x42 + bits, &value)
        },
    }
}

/// Writes an unsigned 32-bit number as the next argument, to be shown in a format.
/// Fails with `DLT_RETURN_WRONG_PARAMETER` where the format is the range marker and with
/// `DLT_RETURN_USER_BUFFER_FULL` where the argument does not fit; then nothing changes.
pub fn dlt_user_log_write_uint32_formatted(log: &mut DltContextData, data: u32, format: DltFormatType) -> (r:
    DltReturnValue)
    requires
        old(log).wf(),
    ensures
        final(log).wf(),
        match spec_format_bits(format) {
            None => r == DltReturnValue::DLT_RETURN_WRONG_PARAMETER && *final(log) == *old(log),
            Some(bits) => {
                let arg = spec_argument((0x43 + bits) as u32, spec_u32_le(data));
                if old(log).spec_fits(arg.len() as int) {
                    r == DltReturnValue::DLT_RETURN_OK && old(log).spec_with(arg, final(log))
                } else {
                    r == DltReturnValue::DLT_RETURN_USER_BUFFER_FULL && *final(log) == *old(log)
                }
            },
        },
{
    match dlt_format_bits(format) {
        None => DltReturnValue::DLT_RETURN_WRONG_PARAMETER,
        Some(bits) => {
            let mut value: Vec<u8> = Vec::new();
            push_u32(&mut value, data, false);
            assert(value@ =~= spec_u32_le(data));
            log.append_value(0x43 + bits, &value)
        },
    }
}

/// Writes an unsigned 64-bit number as the next argument, to be shown in a format.
/// Fails with `DLT_RETURN_WRONG_PARAMETER` where the format is the range marker and with
/// `DLT_RETURN_USER_BUFFER_FULL` where the argument does not fit; then nothing changes.
pub fn dlt_user_log_write_uint64_formatted(log: &mut DltContextData, data: u64, format: DltFormatType) -> (r:
    DltReturnValue)
    requires
        old(log).wf(),
    ensures
        final(log).wf(),
        match spec_format_bits(format) {
            None => r == DltReturnValue::DLT_RETURN_WRONG_PARAMETER && *final(log) == *old(log),
            Some(bits) => {
                let arg = spec_argument((0x44 + bits) as u32, spec_u64_le(data));
                if old(log).spec_fits(arg.len() as int) {
                    r == DltReturnValue::DLT_RETURN_OK && old(log).spec_with(arg, final(log))
                } else {
                    r == DltReturnValue::DLT_RETURN_USER_BUFFER_FULL && *final(log) == *old(log)
                }
            },
        },
{
    match dlt_format_bits(format) {
        None => DltReturnValue::DLT_RETURN_WRONG_PARAMETER,
        Some(bits) => {
            let mut value: Vec<u8> = Vec::new();
            push_u64_le(&mut value, data);
            assert(value@ =~= spec_u64_le(data));
            log.append_value(0x44 + bits, &value)
        },
    }
}

/// Writes raw data as the next argument, to be shown in a format.
/// Fails with `DLT_RETURN_WRONG_PARAMETER` where the format is the range marker and with
/// `DLT_RETURN_USER_BUFFER_FULL` where the argument does not fit into the buffer or the
/// length does not fit into two bytes; then nothing changes.
pub fn dlt_user_log_write_raw_formatted(log: &mut DltContextData, data: &[u8], format: DltFormatType) -> (r:
    DltReturnValue)
    requires
        old(log).wf(),
    ensures
        final(log).wf(),
        match spec_format_bits(format) {
            None => r == DltReturnValue::DLT_RETURN_WRONG_PARAMETER && *final(log) == *old(log),
            Some(bits) => {
                let arg = spec_argument((0x400 + bits) as u32, spec_counted(data@, false));
                if data@.len() < 0xffff && old(log).spec_fits(arg.len() as int) {
                    r == DltReturnValue::DLT_RETURN_OK && old(log).spec_with(arg, final(log))
                } else {
                    r == DltReturnValue::DLT_RETURN_USER_BUFFER_FULL && *final(log) == *old(log)
                }
            },
        },
{
    match dlt_format_bits(format) {
        None => DltReturnValue::DLT_RETURN_WRONG_PARAMETER,
        Some(bits) => log.append_counted(0x400 + bits, data, false),
    }
}

} // verus!
