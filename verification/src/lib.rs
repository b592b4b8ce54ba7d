//! An invite-only webring: the ordered registry of member sites, circular
//! navigation that skips members marked invalid, the redirect table for the
//! hosting layer, and the aggregated feed list.

pub mod error;
pub mod member;
pub mod opml;
pub mod publish;
pub mod redirects;
pub mod registry;
pub mod rfc_822;
pub mod ring;
pub mod text;

pub use crate::error::{Error, Fault};
pub use crate::member::{Date, Feed, Member};
pub use crate::opml::{Opml, Outline};
pub use crate::redirects::RedirectRule;
pub use crate::registry::MemberEntry;
pub use crate::ring::FireChicken;
