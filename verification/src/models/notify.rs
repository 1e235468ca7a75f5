//! Notifications: delivery state, channels and the package handed to the
//! sender.

use vstd::prelude::*;

verus! {

/// Delivery state of a notification.
#[derive(Debug, Clone, Copy, PartialEq, Eq, Structural)]
pub enum NotifyStatus {
    Pending,
    Sent,
    PartialFailed,
    Failed,
}

/// Channel a notification goes out on.
#[derive(Debug, Clone, Copy, PartialEq, Eq, Structural)]
pub enum NotifyChannel {
    Email,
    /// Message inside the application.
    System,
    /// Outside chat robot.
    Webhook,
}

/// What the sender needs to deliver one notification.
#[derive(Debug, Clone)]
pub struct NotifyTask {
    pub notification_id: String,
    pub recipient_email: Option<String>,
    pub recipient_webhook: Option<String>,
    pub content_subject: String,
    pub content_body: String,
}

} // verus!
