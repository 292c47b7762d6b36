use vstd::prelude::*;
use crate::mpi_ibcast::{IbcastFields, MpiIbcast};
use crate::types::{MpiComm, MpiRank, MpiReq, Tsc};

verus! {

/// Why `MpiIbcastBuilder::build` produced no record.
#[derive(Clone, Copy, Debug, PartialEq, Eq)]
pub enum MpiIbcastBuilderError {
    /// The field of this name, the first in declaration order, was never set.
    UninitializedField(&'static str),
}

/// Relies on derive_builder::UninitializedFieldError: `new` keeps the field
/// name and `field_name` hands it back.
#[verifier::external_body]
fn uninitialized(field_name: &'static str) -> (r: MpiIbcastBuilderError)
    ensures
        r == MpiIbcastBuilderError::UninitializedField(field_name),
{
    let e = derive_builder::UninitializedFieldError::new(field_name);
    MpiIbcastBuilderError::UninitializedField(e.field_name())
}

/// The fields that a builder has been given so far.
#[derive(Clone, Copy, Debug, PartialEq, Eq, Structural)]
pub struct IbcastDraft {
    pub current_rank: Option<MpiRank>,
    pub root_rank: Option<MpiRank>,
    pub nb_bytes: Option<u32>,
    pub comm: Option<MpiComm>,
    pub req: Option<MpiReq>,
    pub tsc: Option<Tsc>,
    pub duration: Option<Tsc>,
}

/// The record that a draft describes, or the first field it lacks.
pub open spec fn draft_result(d: IbcastDraft) -> Result<IbcastFields, &'static str> {
    if d.current_rank.is_none() {
        Err("current_rank")
    } else if d.root_rank.is_none() {
        Err("root_rank")
    } else if d.nb_bytes.is_none() {
        Err("nb_bytes")
    } else if d.comm.is_none() {
        Err("comm")
    } else if d.req.is_none() {
        Err("req")
    } else if d.tsc.is_none() {
        Err("tsc")
    } else if d.duration.is_none() {
        Err("duration")
    } else {
        Ok(
            IbcastFields {
                current_rank: d.current_rank.unwrap(),
                root_rank: d.root_rank.unwrap(),
                nb_bytes: d.nb_bytes.unwrap(),
                comm: d.comm.unwrap(),
                req: d.req.unwrap(),
                tsc: d.tsc.unwrap(),
                duration: d.duration.unwrap(),
            },
        )
    }
}

/// Whether every field of a draft has been given.
pub open spec fn draft_complete(d: IbcastDraft) -> bool {
    d.current_rank.is_some() && d.root_rank.is_some() && d.nb_bytes.is_some()
        && d.comm.is_some() && d.req.is_some() && d.tsc.is_some() && d.duration.is_some()
}

/// A draft that has been given every field builds the record whose fields
/// are those values, which is the record that `MpiIbcast::new` makes from
/// them; the order in which the fields were given does not matter, as each
/// setter only sets its own field.
pub proof fn lemma_build_matches_new(d: IbcastDraft, f: IbcastFields)
    requires
        d == (IbcastDraft {
            current_rank: Some(f.current_rank),
            root_rank: Some(f.root_rank),
            nb_bytes: Some(f.nb_bytes),
            comm: Some(f.comm),
            req: Some(f.req),
            tsc: Some(f.tsc),
            duration: Some(f.duration),
        }),
    ensures
        draft_result(d) == Ok::<IbcastFields, &'static str>(f),
{
}

/// Building fails if and only if at least one field was never set, and the
/// error names such a field.
pub proof fn lemma_build_fails_iff_missing(d: IbcastDraft)
    ensures
        draft_result(d).is_err() == (d.current_rank.is_none() || d.root_rank.is_none()
            || d.nb_bytes.is_none() || d.comm.is_none() || d.req.is_none() || d.tsc.is_none()
            || d.duration.is_none()),
        draft_result(d).is_err() == !draft_complete(d),
{
}

/// Builds an `MpiIbcast` from fields given one at a time, in any order.
#[derive(Clone, Debug)]
pub struct MpiIbcastBuilder {
    current_rank: Option<MpiRank>,
    root_rank: Option<MpiRank>,
    nb_bytes: Option<u32>,
    comm: Option<MpiComm>,
    req: Option<MpiReq>,
    tsc: Option<Tsc>,
    duration: Option<Tsc>,
}

impl View for MpiIbcastBuilder {
    type V = IbcastDraft;

    closed spec fn view(&self) -> IbcastDraft {
        IbcastDraft {
            current_rank: self.current_rank,
            root_rank: self.root_rank,
            nb_bytes: self.nb_bytes,
            comm: self.comm,
            req: self.req,
            tsc: self.tsc,
            duration: self.duration,
        }
    }
}

/// A builder that has been given no field.
pub open spec fn empty_draft() -> IbcastDraft {
    IbcastDraft {
        current_rank: None,
        root_rank: None,
        nb_bytes: None,
        comm: None,
        req: None,
        tsc: None,
        duration: None,
    }
}

impl Default for MpiIbcastBuilder {
    fn default() -> (r: Self)
        ensures
            r@ == empty_draft(),
    {
        MpiIbcastBuilder {
            current_rank: None,
            root_rank: None,
            nb_bytes: None,
            comm: None,
            req: None,
            tsc: None,
            duration: None,
        }
    }
}

impl MpiIbcastBuilder {
    /// Sets the rank of the calling process.
    pub fn current_rank(self, value: MpiRank) -> (r: Self)
        ensures
            r@ == (IbcastDraft { current_rank: Some(value), ..self@ }),
    {
        MpiIbcastBuilder { current_rank: Some(value), ..self }
    }

    /// Sets the rank of the root of the broadcast.
    pub fn root_rank(self, value: MpiRank) -> (r: Self)
        ensures
            r@ == (IbcastDraft { root_rank: Some(value), ..self@ }),
    {
        MpiIbcastBuilder { root_rank: Some(value), ..self }
    }

    /// Sets the number of bytes broadcast.
    pub fn nb_bytes(self, value: u32) -> (r: Self)
        ensures
            r@ == (IbcastDraft { nb_bytes: Some(value), ..self@ }),
    {
        MpiIbcastBuilder { nb_bytes: Some(value), ..self }
    }

    /// Sets the communicator.
    pub fn comm(self, value: MpiComm) -> (r: Self)
        ensures
            r@ == (IbcastDraft { comm: Some(value), ..self@ }),
    {
        MpiIbcastBuilder { comm: Some(value), ..self }
    }

    /// Sets the request.
    pub fn req(self, value: MpiReq) -> (r: Self)
        ensures
            r@ == (IbcastDraft { req: Some(value), ..self@ }),
    {
        MpiIbcastBuilder { req: Some(value), ..self }
    }

    /// Sets the time stamp counter at the start of the call.
    pub fn tsc(self, value: Tsc) -> (r: Self)
        ensures
            r@ == (IbcastDraft { tsc: Some(value), ..self@ }),
    {
        MpiIbcastBuilder { tsc: Some(value), ..self }
    }

    /// Sets the duration of the call.
    pub fn duration(self, value: Tsc) -> (r: Self)
        ensures
            r@ == (IbcastDraft { duration: Some(value), ..self@ }),
    {
        MpiIbcastBuilder { duration: Some(value), ..self }
    }

    /// Builds the record, or names the first field, in declaration order,
    /// that was never set.
    pub fn build(&self) -> (r: Result<MpiIbcast, MpiIbcastBuilderError>)
        ensures
            r.is_ok() == draft_complete(self@),
            match draft_result(self@) {
                Ok(f) => r matches Ok(rec) && rec@ == f,
                Err(name) => r == Err::<MpiIbcast, _>(
                    MpiIbcastBuilderError::UninitializedField(name),
                ),
            },
    {
        let current_rank = match self.current_rank {
            Some(v) => v,
            None => return Err(uninitialized("current_rank")),
        };
        let root_rank = match self.root_rank {
            Some(v) => v,
            None => return Err(uninitialized("root_rank")),
        };
        let nb_bytes = match self.nb_bytes {
            Some(v) => v,
            None => return Err(uninitialized("nb_bytes")),
        };
        let comm = match self.comm {
            Some(v) => v,
            None => return Err(uninitialized("comm")),
        };
        let req = match self.req {
            Some(v) => v,
            None => return Err(uninitialized("req")),
        };
        let tsc = match self.tsc {
            Some(v) => v,
            None => return Err(uninitialized("tsc")),
        };
        let duration = match self.duration {
            Some(v) => v,
            None => return Err(uninitialized("duration")),
        };
        Ok(MpiIbcast::new(current_rank, root_rank, nb_bytes, comm, req, tsc, duration))
    }
}

} // verus!
