use vstd::prelude::*;
use crate::codec::{entries, int_field, lemma_unique_at, read_int, DecodeError, EncodedField, FieldValue};
use crate::types::{MpiComm, MpiRank, MpiReq, Tsc};

verus! {

/// The fields of an `MpiIbcast` record, as plain values.
#[derive(Clone, Copy, Debug, PartialEq, Eq, Structural)]
pub struct IbcastFields {
    pub current_rank: MpiRank,
    pub root_rank: MpiRank,
    pub nb_bytes: u32,
    pub comm: MpiComm,
    pub req: MpiReq,
    pub tsc: Tsc,
    pub duration: Tsc,
}

/// A completed call to `MPI_Ibcast`: the rank of the calling process, the
/// rank of the root of the broadcast, the number of bytes exchanged, the
/// communicator, the request, the time stamp counter when the call began and
/// the duration of the call.
#[derive(Clone, Debug, PartialEq, Eq, Structural)]
pub struct MpiIbcast {
    current_rank: MpiRank,
    root_rank: MpiRank,
    nb_bytes: u32,
    comm: MpiComm,
    req: MpiReq,
    tsc: Tsc,
    duration: Tsc,
}

/// The mapping that a record with these fields encodes to, in the fixed
/// order `current_rank, root_rank, nb_bytes, comm, req, tsc, duration`.
pub open spec fn encoding(f: IbcastFields) -> Seq<(Seq<char>, FieldValue)> {
    seq![
        ("current_rank"@, FieldValue::Integer(f.current_rank as i128)),
        ("root_rank"@, FieldValue::Integer(f.root_rank as i128)),
        ("nb_bytes"@, FieldValue::Integer(f.nb_bytes as i128)),
        ("comm"@, FieldValue::Integer(f.comm as i128)),
        ("req"@, FieldValue::Integer(f.req as i128)),
        ("tsc"@, FieldValue::Integer(f.tsc as i128)),
        ("duration"@, FieldValue::Integer(f.duration as i128)),
    ]
}

/// The fields that a mapping decodes to, or the first field, in declaration
/// order, that is absent, repeated, or not an integer of its type's range.
pub open spec fn decoding(m: Seq<(Seq<char>, FieldValue)>) -> Result<IbcastFields, DecodeError> {
    let current_rank = int_field(m, "current_rank", i32::MIN as int, i32::MAX as int);
    let root_rank = int_field(m, "root_rank", i32::MIN as int, i32::MAX as int);
    let nb_bytes = int_field(m, "nb_bytes", 0, u32::MAX as int);
    let comm = int_field(m, "comm", i32::MIN as int, i32::MAX as int);
    let req = int_field(m, "req", i32::MIN as int, i32::MAX as int);
    let tsc = int_field(m, "tsc", 0, u64::MAX as int);
    let duration = int_field(m, "duration", 0, u64::MAX as int);
    if current_rank is Err {
        Err(current_rank->Err_0)
    } else if root_rank is Err {
        Err(root_rank->Err_0)
    } else if nb_bytes is Err {
        Err(nb_bytes->Err_0)
    } else if comm is Err {
        Err(comm->Err_0)
    } else if req is Err {
        Err(req->Err_0)
    } else if tsc is Err {
        Err(tsc->Err_0)
    } else if duration is Err {
        Err(duration->Err_0)
    } else {
        Ok(
            IbcastFields {
                current_rank: (current_rank->Ok_0) as i32,
                root_rank: (root_rank->Ok_0) as i32,
                nb_bytes: (nb_bytes->Ok_0) as u32,
                comm: (comm->Ok_0) as i32,
                req: (req->Ok_0) as i32,
                tsc: (tsc->Ok_0) as u64,
                duration: (duration->Ok_0) as u64,
            },
        )
    }
}

/// Decoding the encoding of a record gives back its fields, exactly.
pub proof fn lemma_round_trip(f: IbcastFields)
    ensures
        decoding(encoding(f)) == Ok::<IbcastFields, DecodeError>(f),
{
    reveal_strlit("current_rank");
    reveal_strlit("root_rank");
    reveal_strlit("nb_bytes");
    reveal_strlit("comm");
    reveal_strlit("req");
    reveal_strlit("tsc");
    reveal_strlit("duration");
    let m = encoding(f);
    // the names differ at their first or second character
    assert("current_rank"@[0] != "root_rank"@[0]);
    assert("current_rank"@[0] != "nb_bytes"@[0] && "root_rank"@[0] != "nb_bytes"@[0]);
    assert("current_rank"@[1] != "comm"@[1] && "root_rank"@[0] != "comm"@[0]);
    assert("nb_bytes"@[0] != "comm"@[0]);
    assert("current_rank"@[0] != "req"@[0] && "root_rank"@[1] != "req"@[1]);
    assert("nb_bytes"@[0] != "req"@[0] && "comm"@[0] != "req"@[0]);
    assert("current_rank"@[0] != "tsc"@[0] && "root_rank"@[0] != "tsc"@[0]);
    assert("nb_bytes"@[0] != "tsc"@[0] && "comm"@[0] != "tsc"@[0] && "req"@[0] != "tsc"@[0]);
    assert("current_rank"@[0] != "duration"@[0] && "root_rank"@[0] != "duration"@[0]);
    assert("nb_bytes"@[0] != "duration"@[0] && "comm"@[0] != "duration"@[0]);
    assert("req"@[0] != "duration"@[0] && "tsc"@[0] != "duration"@[0]);
    lemma_unique_at(m, "current_rank"@, 0);
    lemma_unique_at(m, "root_rank"@, 1);
    lemma_unique_at(m, "nb_bytes"@, 2);
    lemma_unique_at(m, "comm"@, 3);
    lemma_unique_at(m, "req"@, 4);
    lemma_unique_at(m, "tsc"@, 5);
    lemma_unique_at(m, "duration"@, 6);
}

impl View for MpiIbcast {
    type V = IbcastFields;

    closed spec fn view(&self) -> IbcastFields {
        IbcastFields {
            current_rank: self.current_rank,
            root_rank: self.root_rank,
            nb_bytes: self.nb_bytes,
            comm: self.comm,
            req: self.req,
            tsc: self.tsc,
            duration: self.duration,
        }
    }
}

impl MpiIbcast {
    /// Two records are equal exactly when their fields are.
    pub proof fn lemma_view_eq(a: MpiIbcast, b: MpiIbcast)
        ensures
            (a@ == b@) == (a == b),
    {
    }

    /// Creates a record from the value of each field.
    pub fn new(
        current_rank: MpiRank,
        root_rank: MpiRank,
        nb_bytes: u32,
        comm: MpiComm,
        req: MpiReq,
        tsc: Tsc,
        duration: Tsc,
    ) -> (r: Self)
        ensures
            r@ == (IbcastFields { current_rank, root_rank, nb_bytes, comm, req, tsc, duration }),
    {
        MpiIbcast { current_rank, root_rank, nb_bytes, comm, req, tsc, duration }
    }

    /// Encodes the record as a mapping from field names to values, in the
    /// order in which the fields are declared.
    pub fn encode(&self) -> (r: Vec<EncodedField>)
        ensures
            entries(r@) == encoding(self@),
    {
        let mut r: Vec<EncodedField> = Vec::new();
        r.push(EncodedField { name: "current_rank".to_owned(), value: FieldValue::Integer(self.current_rank as i128) });
        r.push(EncodedField { name: "root_rank".to_owned(), value: FieldValue::Integer(self.root_rank as i128) });
        r.push(EncodedField { name: "nb_bytes".to_owned(), value: FieldValue::Integer(self.nb_bytes as i128) });
        r.push(EncodedField { name: "comm".to_owned(), value: FieldValue::Integer(self.comm as i128) });
        r.push(EncodedField { name: "req".to_owned(), value: FieldValue::Integer(self.req as i128) });
        r.push(EncodedField { name: "tsc".to_owned(), value: FieldValue::Integer(self.tsc as i128) });
        r.push(EncodedField { name: "duration".to_owned(), value: FieldValue::Integer(self.duration as i128) });
        assert(entries(r@) =~= encoding(self@));
        r
    }

    /// Decodes a record from a mapping from field names to values, in any
    /// order. Each field must occur once; entries of other names are
    /// ignored.
    pub fn decode(fields: &Vec<EncodedField>) -> (r: Result<MpiIbcast, DecodeError>)
        ensures
            match decoding(entries(fields@)) {
                Ok(f) => r matches Ok(rec) && rec@ == f,
                Err(e) => r == Err::<MpiIbcast, DecodeError>(e),
            },
    {
        let current_rank = read_int(fields, "current_rank", i32::MIN as i128, i32::MAX as i128)?;
        let root_rank = read_int(fields, "root_rank", i32::MIN as i128, i32::MAX as i128)?;
        let nb_bytes = read_int(fields, "nb_bytes", 0, u32::MAX as i128)?;
        let comm = read_int(fields, "comm", i32::MIN as i128, i32::MAX as i128)?;
        let req = read_int(fields, "req", i32::MIN as i128, i32::MAX as i128)?;
        let tsc = read_int(fields, "tsc", 0, u64::MAX as i128)?;
        let duration = read_int(fields, "duration", 0, u64::MAX as i128)?;
        Ok(
            MpiIbcast::new(
                current_rank as i32,
                root_rank as i32,
                nb_bytes as u32,
                comm as i32,
                req as i32,
                tsc as u64,
                duration as u64,
            ),
        )
    }
}

} // verus!
