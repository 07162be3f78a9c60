//! Notification center of an organisation: the listed notifications and the
//! unread count.

use vstd::prelude::*;

use crate::wire::Timestamp;

verus! {

/// A stored notification.
#[derive(Debug)]
pub struct NotificationRow {
    pub id: u128,
    pub kind: String,
    pub subject: String,
    pub body_text: String,
    /// When it was read; `None` while unread.
    pub read_at: Option<Timestamp>,
    pub created_at: Timestamp,
}

/// A listed notification.
#[derive(Debug)]
pub struct NotificationView {
    pub id: u128,
    pub kind: String,
    pub subject: String,
    pub body_text: String,
    pub read: bool,
    pub created_at: Timestamp,
}

/// The notification list with its unread count.
#[derive(Debug)]
pub struct NotificationList {
    pub notifications: Vec<NotificationView>,
    pub unread_count: usize,
}

/// The number of unread notifications among `rows`.
pub open spec fn unread(rows: Seq<NotificationRow>) -> nat
    decreases rows.len(),
{
    if rows.len() == 0 {
        0
    } else {
        unread(rows.drop_last()) + if rows.last().read_at is None { 1nat } else { 0nat }
    }
}

/// `v` lists notification `r`.
pub open spec fn lists(v: NotificationView, r: NotificationRow) -> bool {
    &&& v.id == r.id
    &&& v.kind == r.kind
    &&& v.subject == r.subject
    &&& v.body_text == r.body_text
    &&& v.read == (r.read_at is Some)
    &&& v.created_at == r.created_at
}

/// The notification list of `rows`, in their order, with the number of
/// those unread.
pub fn notification_list(rows: Vec<NotificationRow>) -> (l: NotificationList)
    ensures
        l.unread_count == unread(rows@),
        l.notifications@.len() == rows@.len(),
        forall|i: int| 0 <= i < rows@.len() ==> lists(#[trigger] l.notifications@[i], rows@[i]),
{
    let ghost orig = rows@;
    let mut rest = rows;
    let mut reversed: Vec<NotificationView> = Vec::new();
    let mut unread_count: usize = 0;
    let total: usize = rest.len();
    while rest.len() > 0
        invariant
            orig.len() == total,
            unread_count <= reversed@.len(),
            rest@.len() + reversed@.len() == orig.len(),
            rest@ == orig.take(rest@.len() as int),
            unread_count + unread(rest@) == unread(orig),
            forall|k: int| 0 <= k < reversed@.len() ==> lists(#[trigger] reversed@[k], orig[orig.len() - 1 - k]),
        decreases rest@.len(),
    {
        let ghost before = rest@;
        let r = rest.pop().unwrap();
        proof {
            assert(before.drop_last() == rest@);
            assert(rest@ == orig.take(rest@.len() as int));
        }
        let is_read = r.read_at.is_some();
        if !is_read {
            unread_count = unread_count + 1;
        }
        reversed.push(
            NotificationView {
                id: r.id,
                kind: r.kind,
                subject: r.subject,
                body_text: r.body_text,
                read: is_read,
                created_at: r.created_at,
            },
        );
    }
    let mut notifications: Vec<NotificationView> = Vec::new();
    let ghost n = reversed@.len();
    while reversed.len() > 0
        invariant
            n == orig.len(),
            reversed@.len() + notifications@.len() == n,
            forall|k: int| 0 <= k < reversed@.len() ==> lists(#[trigger] reversed@[k], orig[n - 1 - k]),
            forall|i: int| 0 <= i < notifications@.len() ==> lists(#[trigger] notifications@[i], orig[i]),
        decreases reversed@.len(),
    {
        let v = reversed.pop().unwrap();
        notifications.push(v);
    }
    NotificationList { notifications, unread_count }
}

} // verus!
