//! The ways in which building the ring or one of its views can fail.

use crate::text::{append_decimal, decimal};
use vstd::prelude::*;

verus! {

/// What was wrong with an entry of the member list.
#[derive(Debug, Clone, Copy, PartialEq, Eq, Structural)]
pub enum Fault {
    /// The member's address is not an absolute URL.
    Url,
    /// The admission date is not a calendar date.
    Joined,
    /// The address of one of the member's feeds is not an absolute URL.
    FeedAddress,
    /// The landing page of one of the member's feeds is not an absolute URL.
    FeedLink,
    /// An earlier entry already uses the slug.
    DuplicateSlug,
}

impl Fault {
    /// The text of [`Fault::reason`].
    pub open spec fn reason_text(self) -> Seq<char> {
        match self {
            Fault::Url => "the address is not an absolute URL"@,
            Fault::Joined => "the date of admission is not a calendar date"@,
            Fault::FeedAddress => "the address of a feed is not an absolute URL"@,
            Fault::FeedLink => "the landing page of a feed is not an absolute URL"@,
            Fault::DuplicateSlug => "an earlier entry carries the same slug"@,
        }
    }

    /// What was wrong, in words.
    pub fn reason(&self) -> (text: &'static str)
        ensures
            text@ == self.reason_text(),
    {
        match self {
            Fault::Url => "the address is not an absolute URL",
            Fault::Joined => "the date of admission is not a calendar date",
            Fault::FeedAddress => "the address of a feed is not an absolute URL",
            Fault::FeedLink => "the landing page of a feed is not an absolute URL",
            Fault::DuplicateSlug => "an earlier entry carries the same slug",
        }
    }
}

/// Every failure aborts the step that met it; nothing is retried and no
/// partial output is produced.
#[derive(Debug, Clone, Copy, PartialEq, Eq, Structural)]
pub enum Error {
    /// The entry at position `entry` of the member list, counted from 0, was
    /// rejected.
    MalformedInput { entry: usize, fault: Fault },
    /// Navigation was asked to start from a slug that names no valid member.
    MemberNotFound,
    /// There is no valid member to navigate between.
    EmptyRing,
}

impl Error {
    /// The text of [`Error::message`].
    pub open spec fn message_text(self) -> Seq<char> {
        match self {
            Error::MalformedInput { entry, fault } => "Malformed input in entry "@ + decimal(
                entry as nat,
            ) + ": "@ + fault.reason_text(),
            Error::MemberNotFound => "Member not found"@,
            Error::EmptyRing => "No members"@,
        }
    }

    /// A short description for the person running the build.
    pub fn message(&self) -> (text: String)
        ensures
            text@ == self.message_text(),
    {
        match self {
            Error::MalformedInput { entry, fault } => {
                let mut text = "Malformed input in entry ".to_owned();
                append_decimal(&mut text, *entry as u64);
                text.append(": ");
                text.append(fault.reason());
                text
            },
            Error::MemberNotFound => "Member not found".to_owned(),
            Error::EmptyRing => "No members".to_owned(),
        }
    }
}

} // verus!
