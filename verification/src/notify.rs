use vstd::prelude::*;

use crate::text::{push_str_chars, str_chars, string_of};

verus! {

/// Where link announcements go.
#[derive(Debug, PartialEq, Eq)]
pub enum Notify {
    Ntfy { topic: String },
}

/// The topic an announcement is published under.
pub open spec fn notify_topic(n: Notify) -> Seq<char> {
    match n {
        Notify::Ntfy { topic } => topic@,
    }
}

impl Notify {
    /// The HTTP request that announces a fresh link: the endpoint URL
    /// for the topic, and the message body naming the linked file.
    /// Sending the request is the caller's affair.
    pub fn link_success_request(&self, link_file_name: &str) -> (r: (String, String))
        ensures
            r.0@ == "https://ntfy.sh/"@ + notify_topic(*self),
            r.1@ == "已下载<"@ + link_file_name@ + ">"@,
    {
        let url = match self {
            Notify::Ntfy { topic } => {
                let mut out = str_chars("https://ntfy.sh/");
                push_str_chars(&mut out, topic.as_str());
                string_of(&out)
            },
        };
        let mut body = str_chars("已下载<");
        push_str_chars(&mut body, link_file_name);
        push_str_chars(&mut body, ">");
        let body = string_of(&body);
        (url, body)
    }
}

} // verus!
