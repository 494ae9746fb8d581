//! Messages from the game server.

use crate::element::{attr_lookup, child_lookup, Element};
use crate::error::SCError;
use crate::text::str_eq;
use vstd::prelude::*;

verus! {

/// A message from the server.
#[derive(Debug, PartialEq, Eq)]
pub enum Event {
    /// Notifies the client that they successfully joined a room.
    Joined { room_id: String },
    /// Notifies the client that they left a room.
    Left { room_id: String },
    /// A message in a room, carrying its payload element.
    Room { room_id: String, payload: Element },
}

/// Whether an element is a decodable server message: a join or leave
/// notification with a room identifier, or a room message with a room
/// identifier and a payload child.
pub open spec fn spec_event_ok(e: Element) -> bool {
    if e.name@ == "joined"@ || e.name@ == "left"@ {
        attr_lookup(e.attributes@, "roomId"@, 0) is Some
    } else if e.name@ == "room"@ {
        attr_lookup(e.attributes@, "roomId"@, 0) is Some && child_lookup(
            e.children@,
            "data"@,
            0,
        ) is Some
    } else {
        false
    }
}

/// The failure decoding an element that is no server message.
pub open spec fn spec_event_err(e: Element) -> SCError {
    if e.name@ == "joined"@ || e.name@ == "left"@ {
        SCError::MissingAttribute
    } else if e.name@ == "room"@ {
        if attr_lookup(e.attributes@, "roomId"@, 0) is None {
            SCError::MissingAttribute
        } else {
            SCError::MissingChild
        }
    } else {
        SCError::UnknownElement
    }
}

impl Event {
    /// Decodes a server message, consuming the element: a join or leave
    /// notification, or a room message whose first data child becomes its
    /// payload.
    #[verifier::loop_isolation(false)]
    pub fn from_element(elem: Element) -> (r: Result<Event, SCError>)
        ensures
            r is Ok <==> spec_event_ok(elem),
            match r {
                Ok(ev) => match ev {
                    Event::Joined { room_id } => elem.name@ == "joined"@ && attr_lookup(
                        elem.attributes@,
                        "roomId"@,
                        0,
                    ) == Some(room_id@),
                    Event::Left { room_id } => elem.name@ == "left"@ && attr_lookup(
                        elem.attributes@,
                        "roomId"@,
                        0,
                    ) == Some(room_id@),
                    Event::Room { room_id, payload } => elem.name@ == "room"@ && attr_lookup(
                        elem.attributes@,
                        "roomId"@,
                        0,
                    ) == Some(room_id@) && child_lookup(elem.children@, "data"@, 0) == Some(
                        payload,
                    ),
                },
                Err(er) => er == spec_event_err(elem),
            },
    {
        if str_eq(elem.name.as_str(), "joined") {
            match elem.attribute("roomId") {
                Some(v) => Ok(Event::Joined { room_id: v.clone() }),
                None => Err(SCError::MissingAttribute),
            }
        } else if str_eq(elem.name.as_str(), "left") {
            match elem.attribute("roomId") {
                Some(v) => Ok(Event::Left { room_id: v.clone() }),
                None => Err(SCError::MissingAttribute),
            }
        } else if str_eq(elem.name.as_str(), "room") {
            let room_id = match elem.attribute("roomId") {
                Some(v) => v.clone(),
                None => {
                    return Err(SCError::MissingAttribute);
                },
            };
            let mut holder = elem;
            let mut i: usize = 0;
            let n = holder.children.len();
            while i < n
                invariant
                    i <= n,
                    n == holder.children@.len(),
                    holder == elem,
                    child_lookup(elem.children@, "data"@, 0) == child_lookup(
                        elem.children@,
                        "data"@,
                        i as int,
                    ),
                decreases n - i,
            {
                if str_eq(holder.children[i].name.as_str(), "data") {
                    let payload = holder.children.remove(i);
                    return Ok(Event::Room { room_id, payload });
                }
                i += 1;
            }
            Err(SCError::MissingChild)
        } else {
            Err(SCError::UnknownElement)
        }
    }
}

} // verus!
