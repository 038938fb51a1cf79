use crate::dedup::{after_send, is_stale, may_send, now_seconds, LastResponseLog};
use crate::mailgun::{message_id_of, signature_ok, Mailgun, MailgunEmailReceived, MailgunError};
use crate::text::{lemma_blank_run_between_lines, newlines, trim_of, unified, unify_new_lines};
use vstd::prelude::*;

verus! {

/// An automatic reply, threaded to the email it answers.
pub struct EmailTemplate {
    pub recipient: String,
    pub subject: String,
    pub template: String,
    pub in_reply_to: String,
    pub references: String,
}

/// A message to post to a chat channel, as the bot, in a thread when
/// `thread_ts` is set.
pub struct SlackMessage {
    pub channel: String,
    pub text: String,
    pub thread_ts: Option<String>,
    pub as_user: bool,
}

/// The subject of a reply.
pub open spec fn reply_subject(subject: Seq<char>) -> Seq<char> {
    "Re: "@ + subject
}

/// The text of the message that announces a forwarded email.
pub open spec fn summary_text(subject: Seq<char>) -> Seq<char> {
    "Email Received: "@ + subject
}

/// The text of the threaded message that carries a forwarded email: the
/// unified body in a code block, then the sender.
pub open spec fn detail_text(body: Seq<char>, sender: Seq<char>) -> Seq<char> {
    "```"@ + unified(body) + "```\n(from: "@ + sender + ")"@
}

/// Whether `t` is the reply to `email` with `template`, threaded to `message_id`.
pub open spec fn is_reply(
    t: EmailTemplate,
    email: MailgunEmailReceived,
    template: Seq<char>,
    message_id: Seq<char>,
) -> bool {
    &&& t.recipient@ == email.from@
    &&& t.subject@ == reply_subject(email.subject@)
    &&& t.template@ == template
    &&& t.in_reply_to@ == message_id
    &&& t.references@ == message_id
}

/// What the automatic-reply flow does at `now`, from the log entries `before`
/// to `after`: a bad signature, then headers that yield no message id (also
/// where they do not decode), fail and log nothing; else a reply is planned and logged if
/// the sender may be sent one, and nothing happens if not.
pub open spec fn no_reply_outcome(
    key: Seq<char>,
    window: int,
    template: Seq<char>,
    email: MailgunEmailReceived,
    now: i64,
    before: Map<Seq<char>, i64>,
    after: Map<Seq<char>, i64>,
    r: Result<Option<EmailTemplate>, MailgunError>,
) -> bool {
    if !signature_ok(key, email.timestamp, email.token@, email.signature@) {
        &&& r matches Err(e) && e is HmacError
        &&& after == before
    } else {
        match message_id_of(email.message_headers@) {
            None => {
                &&& r matches Err(e) && e is MailgunError
                &&& after == before
            },
            Some(id) => if may_send(before, window, email.from@, now as int) {
                &&& r matches Ok(Some(t)) && is_reply(t, email, template, id)
                &&& after == after_send(before, window, email.from@, now)
            } else {
                &&& r matches Ok(None)
                &&& after == before
            },
        }
    }
}

/// A forwarded body of two non-blank, trimmed lines with a run of blank lines
/// between them is posted as the two lines with one blank line between, in a
/// code block, followed by the sender.
pub proof fn lemma_forward_blank_run(a: Seq<char>, b: Seq<char>, k: nat, sender: Seq<char>)
    requires
        a.len() > 0,
        b.len() > 0,
        !a.contains('\n'),
        !b.contains('\n'),
        trim_of(a) == a,
        trim_of(b) == b,
        k >= 2,
    ensures
        detail_text(a + newlines(k) + b, sender) == "```"@ + (a + seq!['\n', '\n'] + b) + "```\n(from: "@
            + sender + ")"@,
{
    lemma_blank_run_between_lines(a, b, k);
}

/// After the reply flow has sent a reply to an address at `first`, a second
/// validly signed email from that address, handled at `second` within the
/// cooldown, is answered with success, sends nothing and logs nothing.
pub proof fn lemma_repeat_suppressed(
    key: Seq<char>,
    window: int,
    template: Seq<char>,
    email1: MailgunEmailReceived,
    email2: MailgunEmailReceived,
    first: i64,
    second: i64,
    before: Map<Seq<char>, i64>,
    mid: Map<Seq<char>, i64>,
    after: Map<Seq<char>, i64>,
    r1: Result<Option<EmailTemplate>, MailgunError>,
    r2: Result<Option<EmailTemplate>, MailgunError>,
)
    requires
        no_reply_outcome(key, window, template, email1, first, before, mid, r1),
        r1 matches Ok(Some(_)),
        no_reply_outcome(key, window, template, email2, second, mid, after, r2),
        email2.from@ == email1.from@,
        signature_ok(key, email2.timestamp, email2.token@, email2.signature@),
        message_id_of(email2.message_headers@) is Some,
        !is_stale(window, first as int, second as int),
    ensures
        r2 matches Ok(None),
        after == mid,
{
}

/// The reply to `email`, threaded to `message_id`.
pub fn reply_template(email: &MailgunEmailReceived, template: String, message_id: String) -> (r:
    EmailTemplate)
    ensures
        is_reply(r, *email, template@, message_id@),
{
    let mut subject = String::from_str("Re: ");
    subject.append(email.subject.as_str());
    EmailTemplate {
        recipient: email.from.clone(),
        subject,
        template,
        in_reply_to: message_id.clone(),
        references: message_id,
    }
}

/// The automatic-reply flow at `now`: checks the signature, finds the message
/// id, and, unless `email.from` had a reply within the cooldown, logs one and
/// returns it to be sent.
pub fn send_no_reply_template_at(
    mailgun: &Mailgun,
    last_response_log: &mut LastResponseLog,
    template: String,
    email: &MailgunEmailReceived,
    now: i64,
) -> (r: Result<Option<EmailTemplate>, MailgunError>)
    ensures
        no_reply_outcome(
            mailgun.api_key@,
            old(last_response_log).window(),
            template@,
            *email,
            now,
            old(last_response_log).entries(),
            final(last_response_log).entries(),
            r,
        ),
        final(last_response_log).window() == old(last_response_log).window(),
        old(last_response_log).wf() ==> final(last_response_log).wf(),
{
    match mailgun.verify_hmac(email) {
        Err(e) => {
            return Err(e);
        },
        Ok(()) => {},
    }
    let message_id = match email.get_message_id() {
        Err(e) => {
            return Err(e);
        },
        Ok(id) => id,
    };
    if last_response_log.can_send_at(&email.from, now) {
        last_response_log.log_send_at(&email.from, now);
        Ok(Some(reply_template(email, template, message_id)))
    } else {
        Ok(None)
    }
}

/// As `send_no_reply_template_at`, at the current time, which is returned
/// beside the outcome.
pub fn send_no_reply_template(
    mailgun: &Mailgun,
    last_response_log: &mut LastResponseLog,
    template: String,
    email: &MailgunEmailReceived,
) -> (r: (Result<Option<EmailTemplate>, MailgunError>, i64))
    ensures
        no_reply_outcome(
            mailgun.api_key@,
            old(last_response_log).window(),
            template@,
            *email,
            r.1,
            old(last_response_log).entries(),
            final(last_response_log).entries(),
            r.0,
        ),
        final(last_response_log).window() == old(last_response_log).window(),
        old(last_response_log).wf() ==> final(last_response_log).wf(),
{
    let now = now_seconds();
    (send_no_reply_template_at(mailgun, last_response_log, template, email, now), now)
}

/// The first step of forwarding `email` to `channel`: checks the signature and
/// gives the message that announces the email.
pub fn forward_email_to_slack(mailgun: &Mailgun, channel_id: &String, email: &MailgunEmailReceived) -> (r:
    Result<SlackMessage, MailgunError>)
    ensures
        r is Ok <==> signature_ok(mailgun.api_key@, email.timestamp, email.token@, email.signature@),
        r matches Err(e) ==> e is HmacError,
        r matches Ok(m) ==> m.channel@ == channel_id@ && m.text@ == summary_text(email.subject@)
            && m.thread_ts is None && m.as_user,
{
    match mailgun.verify_hmac(email) {
        Err(e) => Err(e),
        Ok(()) => {
            let mut text = String::from_str("Email Received: ");
            text.append(email.subject.as_str());
            Ok(SlackMessage { channel: channel_id.clone(), text, thread_ts: None, as_user: true })
        },
    }
}

/// The second step of forwarding `email` to `channel`: the body and sender,
/// threaded to the first message, whose timestamp is `thread_ts`.
pub fn forward_detail(channel_id: &String, email: &MailgunEmailReceived, thread_ts: String) -> (r:
    SlackMessage)
    ensures
        r.channel@ == channel_id@,
        r.text@ == detail_text(email.body_plain@, email.sender@),
        r.thread_ts matches Some(t) && t@ == thread_ts@,
        r.as_user,
{
    let body = unify_new_lines(&email.body_plain);
    let mut text = String::from_str("```");
    text.append(body.as_str());
    text.append("```\n(from: ");
    text.append(email.sender.as_str());
    text.append(")");
    SlackMessage { channel: channel_id.clone(), text, thread_ts: Some(thread_ts), as_user: true }
}

/// The second step of forwarding, given how the first one went: its failure
/// ends the forward with that error; its thread anchor makes the threaded
/// message.
pub fn forward_after_summary(
    channel_id: &String,
    email: &MailgunEmailReceived,
    summary: Result<String, MailgunError>,
) -> (r: Result<SlackMessage, MailgunError>)
    ensures
        summary matches Err(e) ==> (r matches Err(f) && f == e),
        summary matches Ok(ts) ==> (r matches Ok(m) && m.channel@ == channel_id@ && m.text@
            == detail_text(email.body_plain@, email.sender@) && (m.thread_ts matches Some(t) && t@
            == ts@) && m.as_user),
{
    match summary {
        Ok(ts) => Ok(forward_detail(channel_id, email, ts)),
        Err(e) => Err(e),
    }
}

/// What the chat provider's answer to a post means: the new message's
/// timestamp when it reports success with one, else an error with the
/// provider's reason, or a fixed text where it gave none.
pub fn slack_post_result(ok: bool, ts: Option<String>, error: Option<String>) -> (r: Result<
    String,
    MailgunError,
>)
    ensures
        r is Ok <==> ok && ts is Some,
        r matches Ok(t) ==> (ts matches Some(u) && t@ == u@),
        r matches Err(e) ==> e is MailgunError,
        r is Err && error is Some ==> r->Err_0->MailgunError_0@ == error->Some_0@,
{
    if ok {
        if let Some(t) = ts {
            return Ok(t);
        }
    }
    match error {
        Some(m) => Err(MailgunError::MailgunError(m)),
        None => Err(MailgunError::MailgunError(String::from_str("the chat message was not posted"))),
    }
}

} // verus!
