//! Trade-session bookkeeping, log capture and Cashu wallet gating for a
//! Mostro peer-to-peer client.

pub mod cashu;
pub mod cashu_laws;
pub mod clock;
pub mod keyed;
pub mod logging;
pub mod logging_laws;
pub mod order;
pub mod session;
pub mod session_laws;
pub mod text;
