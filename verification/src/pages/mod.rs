//! What the pages hand to their templates and what their forms and queries carry.
pub mod bubbles;
pub mod login;
pub mod profile;
pub mod user;
