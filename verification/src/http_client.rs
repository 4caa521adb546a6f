//! Asking the media server whether a call leg still exists.
use vstd::prelude::*;
use vstd::string::*;
use crate::text::{str_eq, concat2, eq_ignore_ascii_case, eq_ignore_ascii_case_spec};
use crate::settings::{ENV, env_name};

verus! {

/// In development there is no media server to ask: every call leg exists.
pub open spec fn lookup_skipped(env: ENV) -> bool {
    eq_ignore_ascii_case_spec(env_name(env), "development"@)
}

/// Whether the lookup is skipped because the service runs in development.
pub fn call_leg_lookup_skipped(env: &ENV) -> (r: bool)
    ensures
        r == lookup_skipped(*env),
{
    let name = env.to_string();
    eq_ignore_ascii_case(name.as_str(), "development")
}

/// Only the development environment skips the lookup.
pub proof fn lemma_lookup_skipped_only_in_development(env: ENV)
    ensures
        lookup_skipped(env) <==> env == ENV::Development,
{
    reveal_strlit("Development");
    reveal_strlit("Testing");
    reveal_strlit("Production");
    reveal_strlit("development");
    if env == ENV::Development {
        assert forall|i: int| 0 <= i < "Development"@.len()
            implies crate::text::ascii_lower(#[trigger] "Development"@[i]) == crate::text::ascii_lower("development"@[i]) by {
            if i == 0 {
                assert("Development"@[0] == 'D');
                assert("development"@[0] == 'd');
                assert((('D' as int) + 32) as char == 'd');
            }
        }
    }
}

/// The lookup URL of a call leg on the media server's HTTP interface.
pub open spec fn uuid_exists_url_spec(uuid: Seq<char>) -> Seq<char> {
    "http://127.0.0.1:7080/xmlapi/uuid_exists?"@ + uuid
}

/// The lookup URL of a call leg.
pub fn uuid_exists_url(uuid: &String) -> (url: String)
    ensures
        url@ == uuid_exists_url_spec(uuid@),
{
    concat2("http://127.0.0.1:7080/xmlapi/uuid_exists?", uuid.as_str())
}

/// The outcome of a lookup request.
#[derive(Debug)]
pub enum LookupReply {
    /// The request could not be sent.
    SendFailed,
    /// A reply came; `body` is `None` when it could not be read.
    Replied { success: bool, body: Option<String> },
}

/// The lookup succeeded with the body `true`.
pub open spec fn reply_says_exists(reply: LookupReply) -> bool {
    match reply {
        LookupReply::SendFailed => false,
        LookupReply::Replied { success, body } => success && (match body {
            Some(b) => b@ == "true"@,
            None => false,
        }),
    }
}

/// A lookup says that the call leg exists exactly when a reply came, was a
/// success, and its body reads `true`; a failed send, a failure status, an
/// unreadable body or any other body says it does not.
pub proof fn lemma_lookup_reply_cases(reply: LookupReply)
    ensures
        reply is SendFailed ==> !reply_says_exists(reply),
        (reply matches LookupReply::Replied { success: false, .. }) ==> !reply_says_exists(reply),
        (reply matches LookupReply::Replied { body: None, .. }) ==> !reply_says_exists(reply),
        reply matches LookupReply::Replied { success: true, body: Some(b) }
            ==> (reply_says_exists(reply) <==> b@ == "true"@),
{
}

/// A call leg exists only when the lookup succeeded with the body `true`.
pub fn call_leg_exists(reply: &LookupReply) -> (r: bool)
    ensures
        r == reply_says_exists(*reply),
{
    match reply {
        LookupReply::SendFailed => false,
        LookupReply::Replied { success, body } => {
            if !*success {
                return false;
            }
            match body {
                Some(b) => str_eq(b.as_str(), "true"),
                None => false,
            }
        },
    }
}

} // verus!
