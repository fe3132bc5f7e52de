//! How a webhook request is answered before any deploy starts.
use vstd::prelude::*;

use crate::configure::loader::{first_at, lemma_first_at_unique, project_for, Config};
use crate::text::{chars_of, owned, push_str, str_eq};
use crate::webhook::payload::PushEvent;
use crate::webhook::signature::{signature_valid, verify};

verus! {

/// The largest request body accepted, in bytes.
pub const MAX_BODY: usize = 256 * 1024;

/// Whether `s` is a non-empty run of `0` (the commit id GitHub sends for a branch
/// that was created or deleted).
pub open spec fn all_zeros(s: Seq<char>) -> bool {
    s.len() > 0 && forall|i: int| 0 <= i < s.len() ==> s[i] == '0'
}

/// Whether `s` is a non-empty run of `0`.
pub fn is_all_zeros(s: &str) -> (r: bool)
    ensures
        r == all_zeros(s@),
{
    let v = chars_of(s);
    if v.len() == 0 {
        return false;
    }
    let mut i: usize = 0;
    while i < v.len()
        invariant
            i <= v@.len(),
            v@ == s@,
            forall|k: int| 0 <= k < i ==> v@[k] == '0',
        decreases v@.len() - i,
    {
        if v[i] != '0' {
            return false;
        }
        i = i + 1;
    }
    true
}

/// Why a request is refused.
pub enum Rejection {
    /// The body is larger than `MAX_BODY`.
    TooLarge,
    /// No project is served at the request's path.
    UnknownProject,
    /// The signature does not match the body under the project's secret.
    BadSignature,
    /// An event other than `ping` and `push`; its name.
    UnsupportedEvent(String),
}

impl Rejection {
    /// The HTTP status of the answer.
    pub fn status(&self) -> (r: u16)
        ensures
            r == match *self {
                Rejection::TooLarge => 413u16,
                Rejection::UnknownProject => 404u16,
                Rejection::BadSignature => 403u16,
                Rejection::UnsupportedEvent(_) => 400u16,
            },
    {
        match self {
            Rejection::TooLarge => 413,
            Rejection::UnknownProject => 404,
            Rejection::BadSignature => 403,
            Rejection::UnsupportedEvent(_) => 400,
        }
    }

    /// The text of the answer.
    pub fn message(&self) -> (r: String)
        ensures
            r@ == match *self {
                Rejection::TooLarge => "body too large"@,
                Rejection::UnknownProject => "unknown project"@,
                Rejection::BadSignature => "signature mismatch"@,
                Rejection::UnsupportedEvent(e) => "unsupported event: "@ + e@,
            },
    {
        match self {
            Rejection::TooLarge => owned("body too large"),
            Rejection::UnknownProject => owned("unknown project"),
            Rejection::BadSignature => owned("signature mismatch"),
            Rejection::UnsupportedEvent(e) => {
                let mut m = owned("unsupported event: ");
                push_str(&mut m, e.as_str());
                m
            },
        }
    }
}

/// What becomes of a request once its headers and body are checked.
pub enum Admission {
    Rejected(Rejection),
    /// A signed `ping` for the project at this index.
    Ping(usize),
    /// A signed `push` for the project at this index.
    Push(usize),
}

/// The checks in order: the body's size, the project at the path, the signature
/// under its secret, then the event type. As (code, project): 0 too large, 1 unknown
/// project, 2 bad signature, 3 unsupported event, 4 ping, 5 push.
pub open spec fn admission_of(config: Config, path: Seq<char>, body: Seq<u8>, signature: Seq<char>, event: Seq<char>) -> (int, int) {
    if body.len() > MAX_BODY {
        (0, -1)
    } else {
        match project_for(config.projects@, path) {
            None => (1, -1),
            Some(i) => if !signature_valid(config.projects@[i].secret@, body, signature) {
                (2, i)
            } else if event == "ping"@ {
                (4, i)
            } else if event == "push"@ {
                (5, i)
            } else {
                (3, i)
            },
        }
    }
}

/// The code and project of an admission, as `admission_of` numbers them.
pub open spec fn admission_code(a: Admission, project: int) -> (int, int) {
    match a {
        Admission::Rejected(Rejection::TooLarge) => (0, -1),
        Admission::Rejected(Rejection::UnknownProject) => (1, -1),
        Admission::Rejected(Rejection::BadSignature) => (2, project),
        Admission::Rejected(Rejection::UnsupportedEvent(_)) => (3, project),
        Admission::Ping(i) => (4, i as int),
        Admission::Push(i) => (5, i as int),
    }
}

/// Checks a webhook request sent to `path` with `body`, the `X-Hub-Signature-256`
/// header `signature` and the `X-GitHub-Event` header `event`.
pub fn triage(config: &Config, path: &str, body: &[u8], signature: &str, event: &str) -> (r: (
    Admission,
    Option<usize>,
))
    ensures
        admission_code(r.0, match r.1 {
            Some(i) => i as int,
            None => -1,
        }) == admission_of(*config, path@, body@, signature@, event@),
        r.0 matches Admission::Rejected(Rejection::UnsupportedEvent(e)) ==> e@ == event@,
        r.1 == (if admission_of(*config, path@, body@, signature@, event@).0 <= 1 {
            None::<usize>
        } else {
            Some(admission_of(*config, path@, body@, signature@, event@).1 as usize)
        }),
{
    if body.len() > MAX_BODY {
        return (Admission::Rejected(Rejection::TooLarge), None);
    }
    let index = match config.project_at(path) {
        Some(i) => i,
        None => {
            proof {
                assert(!exists|i: int| first_at(config.projects@, path@, i));
            }
            return (Admission::Rejected(Rejection::UnknownProject), None);
        },
    };
    proof {
        let c = choose|i: int| first_at(config.projects@, path@, i);
        lemma_first_at_unique(config.projects@, path@, c, index as int);
    }
    if !verify(config.projects[index].secret.as_str(), body, signature) {
        return (Admission::Rejected(Rejection::BadSignature), Some(index));
    }
    if str_eq(event, "ping") {
        (Admission::Ping(index), Some(index))
    } else if str_eq(event, "push") {
        (Admission::Push(index), Some(index))
    } else {
        (Admission::Rejected(Rejection::UnsupportedEvent(owned(event))), Some(index))
    }
}

/// What becomes of a signed push.
#[derive(Clone, Copy, PartialEq, Eq, Structural, Debug)]
pub enum PushDisposition {
    /// A branch was created or deleted: nothing to deploy.
    RefCreatedOrDeleted,
    /// This delivery was already handled.
    Duplicate,
    /// Deploy; `record_delivery` when the delivery id is to be remembered.
    Deploy { record_delivery: bool },
}

/// A push that creates or deletes a branch is acknowledged and not deployed; so is a
/// delivery seen before (when it carries an id); any other push is deployed, and its
/// id, when it has one, remembered.
pub open spec fn push_disposition_of(after: Seq<char>, before: Seq<char>, delivery_id: Seq<char>, already_seen: bool) -> PushDisposition {
    if all_zeros(after) || all_zeros(before) {
        PushDisposition::RefCreatedOrDeleted
    } else if delivery_id.len() > 0 && already_seen {
        PushDisposition::Duplicate
    } else {
        PushDisposition::Deploy { record_delivery: delivery_id.len() > 0 }
    }
}

/// Decides what becomes of a signed push with the `X-GitHub-Delivery` header
/// `delivery_id`; `already_seen` when that id was remembered before.
pub fn push_disposition(event: &PushEvent, delivery_id: &str, already_seen: bool) -> (r: PushDisposition)
    ensures
        r == push_disposition_of(event.after@, event.before@, delivery_id@, already_seen),
{
    if is_all_zeros(event.after.as_str()) || is_all_zeros(event.before.as_str()) {
        return PushDisposition::RefCreatedOrDeleted;
    }
    let has_id = !delivery_id.is_empty();
    if has_id && already_seen {
        PushDisposition::Duplicate
    } else {
        PushDisposition::Deploy { record_delivery: has_id }
    }
}

/// A push is never deployed twice under one delivery id: once its id is remembered,
/// the same delivery is answered as a duplicate.
pub proof fn lemma_redelivery_not_deployed(after: Seq<char>, before: Seq<char>, delivery_id: Seq<char>)
    requires
        push_disposition_of(after, before, delivery_id, false) == (PushDisposition::Deploy {
            record_delivery: true,
        }),
    ensures
        push_disposition_of(after, before, delivery_id, true) == PushDisposition::Duplicate,
{
}

/// A request whose signature does not match is never deployed nor answered as a ping.
pub proof fn lemma_unsigned_refused(config: Config, path: Seq<char>, body: Seq<u8>, signature: Seq<char>, event: Seq<char>)
    requires
        project_for(config.projects@, path) matches Some(i) && !signature_valid(
            config.projects@[i].secret@,
            body,
            signature,
        ),
    ensures
        admission_of(config, path, body, signature, event).0 <= 2,
{
}

} // verus!
