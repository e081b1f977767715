//! The reminder record and what a fired reminder shows.
use vstd::prelude::*;

verus! {

/// One reminder: which note it belongs to, when it fires (`at`, ISO 8601
/// text) and the title and body it shows. An empty title or body stands for
/// the default, which is filled in only when the reminder fires.
#[derive(Clone, Debug)]
pub struct ReminderPayload {
    pub id: String,
    pub note_id: String,
    pub at: String,
    pub title: String,
    pub body: String,
}

/// Title shown by a fired reminder whose own title is empty.
pub open spec fn default_title() -> Seq<char> {
    seq!['D', 'r', 'i', 'f', 't', ' ', 'r', 'e', 'm', 'i', 'n', 'd', 'e', 'r']
}

/// Body shown by a fired reminder whose own body is empty.
pub open spec fn default_body() -> Seq<char> {
    seq!['C', 'h', 'e', 'c', 'k', ' ', 'y', 'o', 'u', 'r', ' ', 'n', 'o', 't', 'e', '.']
}

/// `text`, or `fallback` where `text` is empty.
pub open spec fn or_default(text: Seq<char>, fallback: Seq<char>) -> Seq<char> {
    if text.len() == 0 { fallback } else { text }
}

/// The title that the notification of a fired reminder shows.
pub fn notification_title(p: &ReminderPayload) -> (r: String)
    ensures
        r@ == or_default(p.title@, default_title()),
{
    if p.title.as_str().is_empty() {
        let s = "Drift reminder";
        proof {
            reveal_strlit("Drift reminder");
        }
        s.to_owned()
    } else {
        p.title.clone()
    }
}

/// The body that the notification of a fired reminder shows.
pub fn notification_body(p: &ReminderPayload) -> (r: String)
    ensures
        r@ == or_default(p.body@, default_body()),
{
    if p.body.as_str().is_empty() {
        let s = "Check your note.";
        proof {
            reveal_strlit("Check your note.");
        }
        s.to_owned()
    } else {
        p.body.clone()
    }
}

/// The ids of `reminders`, in order.
pub fn reminder_ids(reminders: &Vec<ReminderPayload>) -> (r: Vec<String>)
    ensures
        r@.len() == reminders@.len(),
        forall|i: int| 0 <= i < r@.len() ==> #[trigger] r@[i]@ == reminders@[i].id@,
{
    let mut r: Vec<String> = Vec::new();
    let mut i: usize = 0;
    while i < reminders.len()
        invariant
            i <= reminders@.len(),
            r@.len() == i,
            forall|k: int| 0 <= k < i ==> #[trigger] r@[k]@ == reminders@[k].id@,
        decreases reminders@.len() - i,
    {
        r.push(reminders[i].id.clone());
        i += 1;
    }
    r
}

} // verus!
