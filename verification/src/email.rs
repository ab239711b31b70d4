//! The digest mail sent through SendGrid.
use vstd::prelude::*;
use vstd::string::*;

use crate::config::EmailConfig;
use crate::models::Digest;
use crate::time::{format_ymd, spec_ymd};

verus! {

/// SendGrid's endpoint for sending mail.
pub const SENDGRID_URL: &'static str = "https://api.sendgrid.com/v3/mail/send";

/// The subject's prefix unless the configuration gives one.
pub const DEFAULT_SUBJECT_PREFIX: &'static str = "Rustling Digest";

/// A digest mail: one personalization per recipient, the sender, the
/// subject, and the summary as its HTML content.
#[derive(Debug)]
pub struct DigestMail {
    pub to: Vec<String>,
    pub from: String,
    pub subject: String,
    pub html: String,
}

/// Why the mail was not sent.
#[derive(Clone, Debug, PartialEq, Eq)]
pub enum EmailError {
    /// SendGrid answered with a status outside 200 to 299, and this body.
    Rejected { status: u16, body: String },
}

/// The subject: the configured prefix (else the default), a dash, and the
/// digest's creation date as `YYYY-MM-DD`.
pub open spec fn spec_subject(config: EmailConfig, digest: Digest) -> Seq<char> {
    let prefix = match config.subject_prefix {
        Some(p) => p@,
        None => DEFAULT_SUBJECT_PREFIX@,
    };
    prefix + " - "@ + spec_ymd(digest.created_at)
}

/// The digest's subject line.
pub fn digest_subject(config: &EmailConfig, digest: &Digest) -> (r: String)
    ensures
        r@ == spec_subject(*config, *digest),
{
    let mut r = match &config.subject_prefix {
        Some(p) => p.clone(),
        None => String::from_str(DEFAULT_SUBJECT_PREFIX),
    };
    r.append(" - ");
    proof {
        use_type_invariant(&digest.created_at);
    }
    let date = format_ymd(&digest.created_at);
    r.append(date.as_str());
    r
}

/// The mail that carries the digest to the configured recipients.
pub fn digest_mail(config: &EmailConfig, digest: &Digest) -> (r: DigestMail)
    ensures
        r.to@ == config.to@,
        r.from@ == config.from@,
        r.subject@ == spec_subject(*config, *digest),
        r.html@ == digest.summary@,
{
    let mut to: Vec<String> = Vec::new();
    let n = config.to.len();
    for i in 0..n
        invariant
            n == config.to@.len(),
            to@ == config.to@.take(i as int),
    {
        to.push(config.to[i].clone());
        assert(to@ =~= config.to@.take(i + 1));
    }
    assert(config.to@.take(n as int) =~= config.to@);
    DigestMail {
        to,
        from: config.from.clone(),
        subject: digest_subject(config, digest),
        html: digest.summary.clone(),
    }
}

/// A status in the 2xx range.
pub open spec fn spec_is_success(status: u16) -> bool {
    200 <= status < 300
}

/// Whether SendGrid accepted the mail: a status from 200 to 299.
pub fn is_success(status: u16) -> (r: bool)
    ensures
        r == spec_is_success(status),
{
    200 <= status && status < 300
}

/// The outcome of sending, from SendGrid's status and answer body.
pub fn send_outcome(status: u16, body: String) -> (r: Result<(), EmailError>)
    ensures
        spec_is_success(status) ==> r is Ok,
        !spec_is_success(status) ==> r == Err::<(), EmailError>(EmailError::Rejected { status, body }),
{
    if is_success(status) {
        Ok(())
    } else {
        Err(EmailError::Rejected { status, body })
    }
}

} // verus!
