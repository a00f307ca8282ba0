use crate::bytemap::ByteMap;
use crate::bytes::copy_bytes;
use crate::error::{Error, EventError};
use crate::gas::{MAX_EVENTS_PER_CONTRACT, MAX_EVENT_DATA_SIZE, MAX_EVENT_NAME_LENGTH};
use crate::types::WasmlAddress;
use std::collections::VecDeque;
use vstd::prelude::*;
use vstd::utf8::encode_utf8;

verus! {

/// Length in bytes of the UTF-8 encoding of `s`, as `str::len` reports it.
pub open spec fn utf8_len(s: Seq<char>) -> int {
    encode_utf8(s).len() as usize as int
}

/// Something a contract emitted during execution.
#[derive(Debug, Clone)]
pub enum Event {
    StateChange { key: Vec<u8>, value: Vec<u8> },
    Custom { contract_addr: WasmlAddress, name: String, data: Vec<u8>, height: u64, timestamp: u64 },
}

/// Which limit, if any, an event breaks: `DataTooLarge` for a state change
/// whose key and value together exceed `MAX_EVENT_DATA_SIZE`; `NameTooLong`
/// for a custom event whose name exceeds `MAX_EVENT_NAME_LENGTH` bytes;
/// `DataTooLarge` for one whose data exceeds `MAX_EVENT_DATA_SIZE`.
pub open spec fn event_violation(e: Event) -> Option<Error> {
    match e {
        Event::StateChange { key, value } => {
            if key@.len() + value@.len() > MAX_EVENT_DATA_SIZE {
                Some(Error::DataTooLarge(arbitrary()))
            } else {
                None
            }
        },
        Event::Custom { name, data, .. } => {
            if utf8_len(name@) > MAX_EVENT_NAME_LENGTH {
                Some(Error::NameTooLong(arbitrary()))
            } else if data@.len() > MAX_EVENT_DATA_SIZE {
                Some(Error::DataTooLarge(arbitrary()))
            } else {
                None
            }
        },
    }
}

/// Whether `e` is an error of the same variant as `kind`.
pub open spec fn same_kind(e: Error, kind: Error) -> bool {
    match (e, kind) {
        (Error::DataTooLarge(_), Error::DataTooLarge(_)) => true,
        (Error::NameTooLong(_), Error::NameTooLong(_)) => true,
        (Error::TooManyEvents(_), Error::TooManyEvents(_)) => true,
        _ => false,
    }
}

/// The events of one contract execution, at most `MAX_EVENTS_PER_CONTRACT`,
/// and the state written through state-change events.
pub struct EventLog {
    events: VecDeque<Event>,
    state: ByteMap<Vec<u8>>,
}

impl EventLog {
    pub closed spec fn wf(&self) -> bool {
        self.state.wf() && self.events@.len() <= MAX_EVENTS_PER_CONTRACT
    }

    /// Events in the order they were added.
    pub closed spec fn event_seq(&self) -> Seq<Event> {
        self.events@
    }

    /// Contract state, key to value.
    pub closed spec fn state_map(&self) -> Map<Seq<u8>, Seq<u8>> {
        self.state@.map_values(|v: Vec<u8>| v@)
    }

    pub fn new() -> (r: Self)
        ensures
            r.wf(),
            r.event_seq() == Seq::<Event>::empty(),
            r.state_map() == Map::<Seq<u8>, Seq<u8>>::empty(),
    {
        let r = Self { events: VecDeque::new(), state: ByteMap::new() };
        assert(r.state_map() =~= Map::<Seq<u8>, Seq<u8>>::empty());
        r
    }

    /// Appends `event` after checking its limits and the number of events
    /// already logged; a state-change event also writes its key and value to
    /// state. A rejected event changes nothing.
    pub fn add_event(&mut self, event: Event) -> (r: Result<(), EventError>)
        requires
            old(self).wf(),
        ensures
            final(self).wf(),
            event_violation(event) is Some ==> r.is_err() && same_kind(
                r.unwrap_err(),
                event_violation(event).unwrap(),
            ),
            event_violation(event) is None && old(self).event_seq().len()
                >= MAX_EVENTS_PER_CONTRACT ==> r.is_err() && r.unwrap_err() is TooManyEvents,
            r.is_ok() <==> event_violation(event) is None && old(self).event_seq().len()
                < MAX_EVENTS_PER_CONTRACT,
            r.is_ok() ==> final(self).event_seq() == old(self).event_seq().push(event),
            r.is_ok() ==> final(self).state_map() == match event {
                Event::StateChange { key, value } => old(self).state_map().insert(key@, value@),
                Event::Custom { .. } => old(self).state_map(),
            },
            r.is_err() ==> final(self).event_seq() == old(self).event_seq(),
            r.is_err() ==> final(self).state_map() == old(self).state_map(),
    {
        match &event {
            Event::StateChange { key, value } => {
                if key.len() > MAX_EVENT_DATA_SIZE || value.len() > MAX_EVENT_DATA_SIZE - key.len() {
                    return Err(Error::DataTooLarge("State change data too large".to_owned()));
                }
            },
            Event::Custom { name, data, .. } => {
                let name_str = name.as_str();
                let name_len = name_str.len();
                assert(name_len == utf8_len(name@));
                if name_len > MAX_EVENT_NAME_LENGTH {
                    return Err(Error::NameTooLong("Event name too long".to_owned()));
                }
                if data.len() > MAX_EVENT_DATA_SIZE {
                    return Err(Error::DataTooLarge("Event data too large".to_owned()));
                }
            },
        }
        if self.events.len() >= MAX_EVENTS_PER_CONTRACT {
            return Err(Error::TooManyEvents("Too many events".to_owned()));
        }
        match &event {
            Event::StateChange { key, value } => {
                let v = copy_bytes(value.as_slice());
                self.state.insert(key.as_slice(), v);
                proof {
                    assert(self.state_map() =~= old(self).state_map().insert(key@, value@));
                }
            },
            Event::Custom { .. } => {},
        }
        self.events.push_back(event);
        Ok(())
    }

    pub fn events(&self) -> (r: &VecDeque<Event>)
        ensures
            r@ == self.event_seq(),
    {
        &self.events
    }

    /// Sets the state value of `key`.
    pub fn store_state(&mut self, key: &[u8], value: &[u8]) -> (r: Result<(), EventError>)
        requires
            old(self).wf(),
        ensures
            final(self).wf(),
            r.is_ok(),
            final(self).state_map() == old(self).state_map().insert(key@, value@),
            final(self).event_seq() == old(self).event_seq(),
    {
        let v = copy_bytes(value);
        self.state.insert(key, v);
        assert(self.state_map() =~= old(self).state_map().insert(key@, value@));
        Ok(())
    }

    /// The state value of `key`, if any.
    pub fn get_state(&self, key: &[u8]) -> (r: Option<&Vec<u8>>)
        requires
            self.wf(),
        ensures
            r.is_some() <==> self.state_map().contains_key(key@),
            r.is_some() ==> r.unwrap()@ == self.state_map()[key@],
    {
        self.state.get(key)
    }

    /// Removes `key` from state, returning the value it had.
    pub fn delete_state(&mut self, key: &[u8]) -> (r: Result<Option<Vec<u8>>, EventError>)
        requires
            old(self).wf(),
        ensures
            final(self).wf(),
            r.is_ok(),
            r.unwrap().is_some() <==> old(self).state_map().contains_key(key@),
            r.unwrap().is_some() ==> r.unwrap().unwrap()@ == old(self).state_map()[key@],
            final(self).state_map() == old(self).state_map().remove(key@),
            final(self).event_seq() == old(self).event_seq(),
    {
        let r = self.state.remove(key);
        assert(self.state_map() =~= old(self).state_map().remove(key@));
        Ok(r)
    }

    /// Drops all events; state is kept.
    pub fn clear(&mut self)
        requires
            old(self).wf(),
        ensures
            final(self).wf(),
            final(self).event_seq() == Seq::<Event>::empty(),
            final(self).state_map() == old(self).state_map(),
    {
        self.events.clear();
    }
}

impl Default for EventLog {
    fn default() -> (r: Self)
        ensures
            r.wf(),
            r.event_seq() == Seq::<Event>::empty(),
            r.state_map() == Map::<Seq<u8>, Seq<u8>>::empty(),
    {
        Self::new()
    }
}

} // verus!
