//! lclhst: share local apps and folders with other devices, over the LAN or
//! peer-to-peer, with no server in the middle.
//!
//! Everything that decides or computes lives here, verified; sockets, files
//! and processes are driven by the program in `app/`.

pub mod banner;
pub mod ca;
pub mod edge;
pub mod fileserve;
pub mod headers;
pub mod listing;
pub mod mdns;
pub mod net;
pub mod percent;
pub mod plaintext;
pub mod protocol;
pub mod qr;
pub mod reply;
pub mod session;
pub mod share;
pub mod size;
pub mod splice;
pub mod subject;
pub mod target;
pub mod text;
pub mod ticket;
pub mod tls;
pub mod trust;

pub use session::open;
pub use session::serve;
pub use session::ServeInfo;
pub use share::Target;
