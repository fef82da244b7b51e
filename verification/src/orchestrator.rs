//! The decisions of the engines that carry work: native, planned and attached.

pub mod apply;
pub mod attach;
pub mod background;
pub mod launch;
pub mod native;
pub mod phase3;
pub mod planned;
pub mod serve;
