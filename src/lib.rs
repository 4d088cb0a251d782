//! Locating a KNX USB interface by vendor id, resolving its interrupt
//! endpoints, and driving the read session as a state machine.
mod device;
mod resolver;
mod session;

pub use device::{
    find_device, lemma_locate_deterministic, locate_post, Direction, Endpoint, KnxError,
    TransferType, KNX_VENDOR_ID,
};
pub use resolver::{
    endpoints_spec, has_address, interrupt_count, is_interrupt, law_no_input_missing,
    law_single_pair_resolves, law_two_inputs_ambiguous, law_two_outputs_ambiguous, none_or,
    resolve, resolve_endpoints, resolve_spec, scan, Configuration, Interface, SessionDescriptor,
};
pub use session::{
    read_action, start, step, step_spec, stop, Action, ReadOutcome, SessionEvent, SessionState,
    PACKET_SIZE, READ_TIMEOUT_MS,
};
