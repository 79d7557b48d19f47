//! Newsletter subscription intake: decoding and validating a submitted form,
//! planning the row to persist, and mapping outcomes to HTTP replies.

pub mod form;
pub mod reply;
pub mod subscription;
pub mod store;
