use vstd::prelude::*;
use crate::codec::{entries, DecodeError, EncodedField};
use crate::mpi_ibcast::{decoding, encoding, lemma_round_trip, IbcastFields, MpiIbcast};

verus! {

/// An event of any of the shapes that a trace log holds.
#[derive(Clone, Debug, PartialEq, Eq, Structural)]
pub enum Event {
    Ibcast(MpiIbcast),
}

/// The fields of an event, with its shape.
#[derive(Clone, Copy, Debug, PartialEq, Eq, Structural)]
pub enum EventFields {
    Ibcast(IbcastFields),
}

impl View for Event {
    type V = EventFields;

    open spec fn view(&self) -> EventFields {
        match self {
            Event::Ibcast(e) => EventFields::Ibcast(e@),
        }
    }
}

/// The encoded form of an event: the tag of its shape beside the mapping
/// from its field names to its values.
#[derive(Clone, Debug)]
pub struct TaggedRecord {
    pub tag: String,
    pub fields: Vec<EncodedField>,
}

/// The tag that names the shape of an event.
pub open spec fn tag_of(e: EventFields) -> Seq<char> {
    match e {
        EventFields::Ibcast(_) => "MpiIbcast"@,
    }
}

/// The mapping that an event encodes to.
pub open spec fn event_encoding(e: EventFields) -> Seq<(Seq<char>, crate::codec::FieldValue)> {
    match e {
        EventFields::Ibcast(f) => encoding(f),
    }
}

/// The event that a tagged record decodes to: the tag picks the shape, and
/// that shape's decoding reads the mapping.
pub open spec fn event_decoding(rec: TaggedRecord) -> Result<EventFields, DecodeError> {
    if rec.tag@ == "MpiIbcast"@ {
        match decoding(entries(rec.fields@)) {
            Ok(f) => Ok(EventFields::Ibcast(f)),
            Err(e) => Err(e),
        }
    } else {
        Err(DecodeError::UnknownTag(rec.tag))
    }
}

impl Event {
    /// Two events are equal exactly when they have the same shape and fields.
    pub proof fn lemma_view_eq(a: Event, b: Event)
        ensures
            (a@ == b@) == (a == b),
    {
        match (a, b) {
            (Event::Ibcast(x), Event::Ibcast(y)) => MpiIbcast::lemma_view_eq(x, y),
        }
    }

    /// Encodes the event with the tag of its shape.
    pub fn encode(&self) -> (r: TaggedRecord)
        ensures
            r.tag@ == tag_of(self@),
            entries(r.fields@) == event_encoding(self@),
    {
        match self {
            Event::Ibcast(e) => TaggedRecord { tag: "MpiIbcast".to_owned(), fields: e.encode() },
        }
    }

    /// Decodes an event, choosing its shape by the record's tag.
    pub fn decode(rec: &TaggedRecord) -> (r: Result<Event, DecodeError>)
        ensures
            match event_decoding(*rec) {
                Ok(f) => r matches Ok(e) && e@ == f,
                Err(err) => r == Err::<Event, DecodeError>(err),
            },
    {
        if rec.tag == "MpiIbcast".to_owned() {
            match MpiIbcast::decode(&rec.fields) {
                Ok(e) => Ok(Event::Ibcast(e)),
                Err(err) => Err(err),
            }
        } else {
            Err(DecodeError::UnknownTag(rec.tag.clone()))
        }
    }
}

/// Decodes a stream of tagged records, one after the other, onto the end of
/// `out`. Stops at the first record that does not decode and returns its
/// error; the events decoded before it stay in `out`.
pub fn decode_stream(records: &Vec<TaggedRecord>, out: &mut Vec<Event>) -> (r: Result<(), DecodeError>)
    ensures
        final(out)@.len() >= old(out)@.len(),
        final(out)@.subrange(0, old(out)@.len() as int) == old(out)@,
        forall|j: int|
            0 <= j < final(out)@.len() - old(out)@.len() ==> event_decoding(#[trigger] records@[j])
                == Ok::<EventFields, DecodeError>(final(out)@[old(out)@.len() + j]@),
        r is Ok ==> final(out)@.len() - old(out)@.len() == records@.len(),
        r matches Err(e) ==> final(out)@.len() - old(out)@.len() < records@.len()
            && event_decoding(records@[final(out)@.len() - old(out)@.len()])
            == Err::<EventFields, DecodeError>(e),
{
    let ghost start = out@;
    let mut i: usize = 0;
    while i < records.len()
        invariant
            i <= records@.len(),
            start == old(out)@,
            out@.len() == start.len() + i,
            out@.subrange(0, start.len() as int) == start,
            forall|j: int|
                0 <= j < i ==> event_decoding(#[trigger] records@[j])
                    == Ok::<EventFields, DecodeError>(out@[start.len() + j]@),
        decreases records@.len() - i,
    {
        match Event::decode(&records[i]) {
            Ok(e) => {
                out.push(e);
                assert(out@.subrange(0, start.len() as int) =~= start);
            },
            Err(err) => {
                return Err(err);
            },
        }
        i = i + 1;
    }
    Ok(())
}

/// A stream holding the tagged encodings of a sequence of events, of any
/// mix of shapes, decodes record by record to exactly those events, in order.
pub proof fn lemma_stream_round_trip(events: Seq<Event>, records: Seq<TaggedRecord>)
    requires
        records.len() == events.len(),
        forall|i: int|
            0 <= i < records.len() ==> (#[trigger] records[i]).tag@ == tag_of(events[i]@)
                && entries(records[i].fields@) == event_encoding(events[i]@),
    ensures
        forall|i: int|
            0 <= i < records.len() ==> event_decoding(#[trigger] records[i])
                == Ok::<EventFields, DecodeError>(events[i]@),
{
    assert forall|i: int| 0 <= i < records.len() implies event_decoding(#[trigger] records[i])
        == Ok::<EventFields, DecodeError>(events[i]@) by {
        match events[i]@ {
            EventFields::Ibcast(f) => lemma_round_trip(f),
        }
    }
}

} // verus!
