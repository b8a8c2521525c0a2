//! Requests to the pushover notification service, built up field by field.
//! Sending is done outside this library.

use vstd::prelude::*;

verus! {

/// The address messages are posted to.
pub const MESSAGE_API_URL: &'static str = "https://api.pushover.net/1/messages.json";

/// How a notification is delivered.
#[derive(Debug, PartialEq, Eq, Clone, Copy)]
pub enum Priority {
    /// Generate no notification or alert.
    NoNotification,
    /// Always send as a quiet notification.
    QuietNotification,
    /// Display as high priority and bypass the user's quiet hours.
    HighPriority,
    /// Also require confirmation from the user.
    RequireConfirmation,
}

/// The number the service knows each priority by.
pub open spec fn priority_number(p: Priority) -> int {
    match p {
        Priority::NoNotification => -2,
        Priority::QuietNotification => -1,
        Priority::HighPriority => 1,
        Priority::RequireConfirmation => 2,
    }
}

impl Priority {
    /// The number the service knows this priority by.
    pub fn value(&self) -> (v: i8)
        ensures
            v == priority_number(*self),
    {
        match self {
            Priority::NoNotification => -2,
            Priority::QuietNotification => -1,
            Priority::HighPriority => 1,
            Priority::RequireConfirmation => 2,
        }
    }
}

/// A message to send.
#[derive(Debug, PartialEq, Eq)]
pub struct PushoverRequest {
    pub token: String,
    pub user: String,
    pub message: String,
    pub title: Option<String>,
    pub url: Option<String>,
    pub url_title: Option<String>,
    pub priority: Option<Priority>,
}

impl PushoverRequest {
    /// Sets the message's title (otherwise the app's name is used).
    pub fn title(self, title: String) -> (r: PushoverRequest)
        ensures
            r == (PushoverRequest { title: Some(title), ..self }),
    {
        let mut r = self;
        r.title = Some(title);
        r
    }

    /// Sets a supplementary url to show with the message.
    pub fn url(self, url: String) -> (r: PushoverRequest)
        ensures
            r == (PushoverRequest { url: Some(url), ..self }),
    {
        let mut r = self;
        r.url = Some(url);
        r
    }

    /// Sets a title for the supplementary url (otherwise the url is shown).
    pub fn url_title(self, url_title: String) -> (r: PushoverRequest)
        ensures
            r == (PushoverRequest { url_title: Some(url_title), ..self }),
    {
        let mut r = self;
        r.url_title = Some(url_title);
        r
    }

    /// Sets the notification priority.
    pub fn priority(self, priority: Priority) -> (r: PushoverRequest)
        ensures
            r == (PushoverRequest { priority: Some(priority), ..self }),
    {
        let mut r = self;
        r.priority = Some(priority);
        r
    }
}

/// A pushover application, by its token.
#[derive(Debug, PartialEq, Eq)]
pub struct Pushover {
    pub token: String,
}

impl Pushover {
    /// The application with token `token`.
    pub fn new(token: String) -> (p: Pushover)
        ensures
            p.token == token,
    {
        Pushover { token }
    }

    /// A message from this application to `user`, with nothing optional set.
    pub fn request(&self, user: String, message: String) -> (r: PushoverRequest)
        ensures
            r.token@ == self.token@,
            r.user == user,
            r.message == message,
            r.title is None,
            r.url is None,
            r.url_title is None,
            r.priority is None,
    {
        PushoverRequest {
            token: self.token.clone(),
            user,
            message,
            title: None,
            url: None,
            url_title: None,
            priority: None,
        }
    }
}

} // verus!
