//! The running status shown by the settings page and the tray, and the rule
//! that a status is announced only when it changes.

use vstd::prelude::*;
use crate::text::{owned, str_eq};

verus! {

broadcast use vstd::string::group_string_axioms;

/// The status of the client: a machine-readable kind and a text for people.
#[derive(Debug, Clone)]
pub struct StatusPayload {
    /// checking | unconfigured | needs-sms | logging-in | connected | network-down | failed | away-mode
    pub kind: String,
    pub text: String,
}

/// A status with the given kind and text.
pub fn status(kind: &str, text: String) -> (p: StatusPayload)
    ensures
        p.kind@ == kind@,
        p.text@ == text@,
{
    StatusPayload { kind: owned(kind), text }
}

/// Whether recording `kind`/`text` after `last` is a change worth announcing.
pub open spec fn status_changes(last: Option<StatusPayload>, kind: Seq<char>, text: Seq<char>) -> bool {
    match last {
        Some(p) => !(p.kind@ == kind && p.text@ == text),
        None => true,
    }
}

/// Records a new status after `last`; returns whether it changed (and so
/// should be announced). An unchanged status leaves `last` as it was.
pub fn record_status(last: &mut Option<StatusPayload>, kind: &str, text: String) -> (changed: bool)
    ensures
        changed == status_changes(*old(last), kind@, text@),
        changed ==> (*final(last) matches Some(p) && p.kind@ == kind@ && p.text@ == text@),
        !changed ==> *final(last) == *old(last),
        *final(last) matches Some(p) && p.kind@ == kind@ && p.text@ == text@,
{
    let same = match last {
        Some(p) => str_eq(p.kind.as_str(), kind) && str_eq(p.text.as_str(), text.as_str()),
        None => false,
    };
    if !same {
        *last = Some(status(kind, text));
    }
    !same
}

/// Law: announcing is idempotent. Right after a status was recorded,
/// recording the same kind and text again is no change.
pub proof fn law_status_idempotent(last: Option<StatusPayload>, kind: Seq<char>, text: Seq<char>)
    requires
        last matches Some(p) && p.kind@ == kind && p.text@ == text,
    ensures
        !status_changes(last, kind, text),
{
}

/// Law: a status is unchanged only when both its kind and its text equal the
/// last one. A first status, another kind, or the same kind with another
/// text (a new failure count, a new confirmation step) is a change.
pub proof fn law_new_kind_or_text_is_change(
    last: Option<StatusPayload>,
    kind: Seq<char>,
    text: Seq<char>,
)
    ensures
        status_changes(last, kind, text) <==> !(last matches Some(p) && p.kind@ == kind && p.text@
            == text),
        (last matches Some(p) && p.text@ != text) ==> status_changes(last, kind, text),
        (last matches Some(p) && p.kind@ != kind) ==> status_changes(last, kind, text),
        last is None ==> status_changes(last, kind, text),
{
}

} // verus!
