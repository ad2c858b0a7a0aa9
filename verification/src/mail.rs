use vstd::prelude::*;
use crate::text::{copy_str, join2};

verus! {

/// A mailbox as an e-mail header writes it: `Name <address>`.
pub open spec fn spec_mailbox(name: Seq<char>, address: Seq<char>) -> Seq<char> {
    name + " <"@ + address + ">"@
}

/// Writes the mailbox of `address` under the display name `name`.
pub fn mailbox(name: &str, address: &str) -> (m: String)
    ensures
        m@ == spec_mailbox(name@, address@),
{
    join2(name, " <").concat(address).concat(">")
}

/// An e-mail ready to be handed to the mail provider.
#[derive(Debug)]
pub struct OutgoingEmail {
    pub from: String,
    pub to: Vec<String>,
    pub subject: String,
    pub html: String,
}

/// The sender of the service's e-mails.
#[derive(Debug, Clone)]
pub struct MailSender {
    pub sender_email: String,
    pub sender_name: String,
}

impl MailSender {
    pub fn new(sender_email: String, sender_name: String) -> (s: Self)
        ensures
            s.sender_email@ == sender_email@,
            s.sender_name@ == sender_name@,
    {
        Self { sender_email, sender_name }
    }

    /// The e-mail from this sender to the single recipient `to_name <to_email>`.
    pub fn compose(&self, to_email: &str, to_name: &str, subject: &str, html_body: &str) -> (m: OutgoingEmail)
        ensures
            m.from@ == spec_mailbox(self.sender_name@, self.sender_email@),
            m.to@.len() == 1,
            m.to@[0]@ == spec_mailbox(to_name@, to_email@),
            m.subject@ == subject@,
            m.html@ == html_body@,
    {
        let mut to: Vec<String> = Vec::new();
        to.push(mailbox(to_name, to_email));
        OutgoingEmail {
            from: mailbox(self.sender_name.as_str(), self.sender_email.as_str()),
            to,
            subject: copy_str(subject),
            html: copy_str(html_body),
        }
    }
}

} // verus!
