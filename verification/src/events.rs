//! Live event stream of a project: who may subscribe, and the message each
//! broadcast item becomes.

use vstd::prelude::*;

use crate::text::{dec, dec_chars, push_str, push_vec, string_of};

verus! {

/// A key may only subscribe to its own project's stream (403 otherwise).
pub fn stream_access(authenticated_project: u128, path_project: u128) -> (r: Result<(), u16>)
    ensures
        authenticated_project == path_project ==> r is Ok,
        authenticated_project != path_project ==> r == Err::<(), u16>(403),
{
    if authenticated_project != path_project {
        return Err(403);
    }
    Ok(())
}

/// An item received from the broadcast channel.
#[derive(Debug)]
pub enum StreamItem {
    /// A lifecycle event of `project_id`, of kind `kind`, with its JSON
    /// payload (`None` when it could not be serialised).
    Event { project_id: u128, kind: String, payload: Option<String> },
    /// The subscriber fell behind and `dropped` events were lost.
    Lagged { dropped: u64 },
}

/// The server-sent message (event name, data) an item becomes on the stream
/// of `project`: events of other projects and events that could not be
/// serialised are skipped; a lag is reported as a `lagged` event carrying
/// `{"dropped":n}`.
pub fn sse_message(item: StreamItem, project: u128) -> (m: Option<(String, String)>)
    ensures
        match item {
            StreamItem::Event { project_id, kind, payload } => if project_id != project {
                m is None
            } else {
                match payload {
                    Some(p) => m == Some((kind, p)),
                    None => m is None,
                }
            },
            StreamItem::Lagged { dropped } => m matches Some((name, data)) && name@ == "lagged"@
                && data@ == "{\"dropped\":"@ + dec(dropped as nat) + "}"@,
        },
{
    match item {
        StreamItem::Event { project_id, kind, payload } => {
            if project_id != project {
                return None;
            }
            match payload {
                Some(p) => Some((kind, p)),
                None => None,
            }
        },
        StreamItem::Lagged { dropped } => {
            let mut data: Vec<char> = Vec::new();
            push_str(&mut data, "{\"dropped\":");
            let digits = dec_chars(dropped);
            push_vec(&mut data, &digits);
            push_str(&mut data, "}");
            Some(("lagged".to_string(), string_of(&data)))
        },
    }
}

} // verus!
