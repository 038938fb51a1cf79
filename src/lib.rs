//! An inbound-email relay: signature checks on provider webhooks, a cooldown
//! log that limits automatic replies, and the messages posted to a chat
//! channel when an email is forwarded.

pub mod dedup;
pub mod inbound;
pub mod mailgun;
pub mod relay;
pub mod text;

pub use dedup::{LastResponseLog, Minutes};
pub use inbound::{MultipartError, MultipartFields};
pub use mailgun::{Mailgun, MailgunEmailReceived, MailgunError};
pub use relay::{EmailTemplate, SlackMessage};
pub use text::unify_new_lines;
