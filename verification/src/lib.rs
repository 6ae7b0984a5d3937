//! Wire formats, packet codecs and transfer logic of the RFT robust file
//! transfer protocol.

pub mod wire;
pub mod packets;
pub mod packet_laws;
pub mod text;
pub mod utils;
pub mod server;
pub mod client;
pub mod cmdline;
pub mod transfer_laws;
