pub mod error;
pub mod raw_msg;
pub mod gnss_id;
pub mod cfg_rate;
pub mod cfg_msg;
pub mod cfg_prt;
pub mod cfg_gnss;
pub mod lnav;
pub mod rxm_sfrbx;
pub mod rxm_rawx;
pub mod msg;
pub mod port_buffer;
pub mod gps_status;
pub mod session;
