//! The messages sent to Telegram about a deploy.
use vstd::prelude::*;

use crate::text::{escape_html, escape_html_spec, push_str};

verus! {

/// Something to tell the chats about a project's deploy.
pub enum NotifyEvent {
    /// The deploy started; with the HTML summary of the push's commits, when there is one.
    Started { project: String, summary: Option<String> },
    Success { project: String },
    Failed { project: String, step: String, reason: String },
}

/// The HTML message for an event. The failure reason is command output, so it is
/// escaped; the project and step names come from the configuration, and the commit
/// summary is HTML already.
pub open spec fn message_of(e: NotifyEvent) -> Seq<char> {
    match e {
        NotifyEvent::Started { project, summary } => "🚀 <b>"@ + project@ + "</b>: deploy started"@
            + match summary {
            Some(text) => "\n\n"@ + text@,
            None => Seq::empty(),
        },
        NotifyEvent::Success { project } => "✅ <b>"@ + project@ + "</b>: deploy succeeded"@,
        NotifyEvent::Failed { project, step, reason } => "❌ <b>"@ + project@
            + "</b>: deploy failed at <code>"@ + step@ + "</code>\n<pre>"@ + escape_html_spec(
            reason@,
        ) + "</pre>"@,
    }
}

impl NotifyEvent {
    /// The message sent to the chats for this event.
    pub fn message(&self) -> (r: String)
        ensures
            r@ == message_of(*self),
    {
        let mut out = String::new();
        match self {
            NotifyEvent::Started { project, summary } => {
                push_str(&mut out, "🚀 <b>");
                push_str(&mut out, project.as_str());
                push_str(&mut out, "</b>: deploy started");
                if let Some(text) = summary {
                    push_str(&mut out, "\n\n");
                    push_str(&mut out, text.as_str());
                }
            },
            NotifyEvent::Success { project } => {
                push_str(&mut out, "✅ <b>");
                push_str(&mut out, project.as_str());
                push_str(&mut out, "</b>: deploy succeeded");
            },
            NotifyEvent::Failed { project, step, reason } => {
                let escaped = escape_html(reason.as_str());
                push_str(&mut out, "❌ <b>");
                push_str(&mut out, project.as_str());
                push_str(&mut out, "</b>: deploy failed at <code>");
                push_str(&mut out, step.as_str());
                push_str(&mut out, "</code>\n<pre>");
                push_str(&mut out, escaped.as_str());
                push_str(&mut out, "</pre>");
            },
        }
        proof {
            assert(out@ =~= message_of(*self));
        }
        out
    }
}

} // verus!
