//! Toast notifications as they stand without a Windows toast service:
//! notifications are built and "shown" without effect.

pub mod notification;

use vstd::prelude::*;

verus! {

/// Why a notification could not be built or shown.
#[derive(Debug, Clone, Copy, PartialEq, Eq, Structural)]
pub enum NotifError {
    DurationTooLong,
    UnknownAndImpossible,
    UnsupportedPlatform,
}

impl NotifError {
    /// The error's text, as its `Display` reads: the variant's name.
    pub fn message(&self) -> (r: &'static str)
        ensures
            r@ == match *self {
                NotifError::DurationTooLong => "DurationTooLong"@,
                NotifError::UnknownAndImpossible => "UnknownAndImpossible"@,
                NotifError::UnsupportedPlatform => "UnsupportedPlatform"@,
            },
    {
        match self {
            NotifError::DurationTooLong => "DurationTooLong",
            NotifError::UnknownAndImpossible => "UnknownAndImpossible",
            NotifError::UnsupportedPlatform => "UnsupportedPlatform",
        }
    }
}

/// The notifier of an application.
#[derive(Debug, Clone, Copy, PartialEq, Eq, Structural)]
pub struct ToastsNotifier;

impl ToastsNotifier {
    pub fn new(app: &str) -> (r: Result<Self, NotifError>)
        ensures
            r == Ok::<ToastsNotifier, NotifError>(ToastsNotifier),
    {
        Ok(ToastsNotifier)
    }
}

/// Builds a notification; every step is accepted.
#[derive(Debug, Clone, Copy, PartialEq, Eq, Structural)]
pub struct NotificationBuilder;

impl NotificationBuilder {
    pub fn new() -> (r: Self)
        ensures
            r == NotificationBuilder,
    {
        NotificationBuilder
    }

    pub fn visual<T>(self, widget: T) -> (r: Self)
        ensures
            r == self,
    {
        self
    }

    pub fn actions<T>(self, actions: Vec<T>) -> (r: Self)
        ensures
            r == self,
    {
        self
    }

    pub fn with_launch(self, launch: &str) -> (r: Self)
        ensures
            r == self,
    {
        self
    }

    pub fn build(self, id: i32, notifier: &ToastsNotifier, tag: &str, group: &str) -> (r: Result<Notification, NotifError>)
        ensures
            r == Ok::<Notification, NotifError>(Notification),
    {
        Ok(Notification)
    }
}

/// A built notification.
#[derive(Debug, Clone, Copy, PartialEq, Eq, Structural)]
pub struct Notification;

impl Notification {
    pub fn show(&self) -> (r: Result<(), NotifError>)
        ensures
            r is Ok,
    {
        Ok(())
    }
}

} // verus!
