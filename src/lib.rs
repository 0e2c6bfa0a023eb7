//! Building blocks of a two-port packet relay: the interface-control block
//! used to ask the kernel for an interface's hardware address, the hardware
//! address itself, the capture-session setup policy, and the relay's decision
//! logic as a state machine.
pub mod error;
pub mod hwaddr;
pub mod iface;
pub mod ifreq;
pub mod relay;
pub mod session;

pub use error::Error;
pub use hwaddr::HwAddr;
pub use iface::Iface;
pub use ifreq::{IfReq, SockAddr, NAME_FIELD_LEN, REPLY_LEN};
pub use relay::{Relay, RelayAction, RelayEvent, RelayState, Side};
pub use session::{host_filter, protocol_filter, session_filters};
