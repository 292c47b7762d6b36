use vstd::prelude::*;

verus! {

/// The value of one field in the encoded form of a record.
#[derive(Clone, Copy, Debug, PartialEq, Eq, Structural)]
pub enum FieldValue {
    /// An integer.
    Integer(i128),
    /// Anything that is not an integer.
    Other,
}

/// One entry of the mapping from field names to values that a record
/// encodes to.
#[derive(Clone, Debug)]
pub struct EncodedField {
    pub name: String,
    pub value: FieldValue,
}

impl View for EncodedField {
    type V = (Seq<char>, FieldValue);

    open spec fn view(&self) -> (Seq<char>, FieldValue) {
        (self.name@, self.value)
    }
}

/// An encoded mapping as a sequence of (name, value) pairs.
pub open spec fn entries(fields: Seq<EncodedField>) -> Seq<(Seq<char>, FieldValue)> {
    fields.map_values(|f: EncodedField| f@)
}

/// Why an encoded record could not be decoded.
#[derive(Clone, Debug, PartialEq, Eq)]
pub enum DecodeError {
    /// The mapping has no field of this name.
    MissingField(&'static str),
    /// The field of this name is not an integer of its type's range.
    InvalidValue(&'static str),
    /// The mapping has more than one field of this name.
    DuplicateField(&'static str),
    /// No record shape has this type tag.
    UnknownTag(String),
}

/// The value of the first entry named `name`, if there is one.
pub open spec fn lookup(m: Seq<(Seq<char>, FieldValue)>, name: Seq<char>) -> Option<FieldValue>
    decreases m.len(),
{
    if m.len() == 0 {
        None
    } else if m[0].0 == name {
        Some(m[0].1)
    } else {
        lookup(m.drop_first(), name)
    }
}

/// The first entry named `name` is the one at index `i` when no entry before
/// it has that name.
pub proof fn lemma_lookup_at(m: Seq<(Seq<char>, FieldValue)>, name: Seq<char>, i: int)
    requires
        0 <= i < m.len(),
        m[i].0 == name,
        forall|j: int| 0 <= j < i ==> m[j].0 != name,
    ensures
        lookup(m, name) == Some(m[i].1),
    decreases i,
{
    if i > 0 {
        assert(m[0].0 != name);
        lemma_lookup_at(m.drop_first(), name, i - 1);
    }
}

/// Whether more than one entry is named `name`.
pub open spec fn repeated(m: Seq<(Seq<char>, FieldValue)>, name: Seq<char>) -> bool
    decreases m.len(),
{
    if m.len() == 0 {
        false
    } else if m[0].0 == name {
        lookup(m.drop_first(), name) is Some
    } else {
        repeated(m.drop_first(), name)
    }
}

/// When the first entry named `name` is at index `i`, the name is repeated
/// exactly when it occurs again after `i`.
pub proof fn lemma_repeated_at(m: Seq<(Seq<char>, FieldValue)>, name: Seq<char>, i: int)
    requires
        0 <= i < m.len(),
        m[i].0 == name,
        forall|j: int| 0 <= j < i ==> m[j].0 != name,
    ensures
        repeated(m, name) == (lookup(m.subrange(i + 1, m.len() as int), name) is Some),
    decreases i,
{
    if i == 0 {
        assert(m.drop_first() =~= m.subrange(1, m.len() as int));
    } else {
        assert(m[0].0 != name);
        lemma_repeated_at(m.drop_first(), name, i - 1);
        assert(m.drop_first().subrange(i, m.len() - 1) =~= m.subrange(i + 1, m.len() as int));
    }
}

/// No entry is found under a name that no entry has.
pub proof fn lemma_lookup_absent(m: Seq<(Seq<char>, FieldValue)>, name: Seq<char>)
    requires
        forall|j: int| 0 <= j < m.len() ==> m[j].0 != name,
    ensures
        lookup(m, name) is None,
    decreases m.len(),
{
    if m.len() > 0 {
        lemma_lookup_absent(m.drop_first(), name);
    }
}

/// An entry whose name no other entry has is found under that name, and the
/// name is not repeated.
pub proof fn lemma_unique_at(m: Seq<(Seq<char>, FieldValue)>, name: Seq<char>, i: int)
    requires
        0 <= i < m.len(),
        m[i].0 == name,
        forall|j: int| 0 <= j < m.len() && j != i ==> m[j].0 != name,
    ensures
        lookup(m, name) == Some(m[i].1),
        !repeated(m, name),
{
    lemma_lookup_at(m, name, i);
    lemma_repeated_at(m, name, i);
    lemma_lookup_absent(m.subrange(i + 1, m.len() as int), name);
}

/// The integer that the field `name` holds, if it is there once and lies in
/// `lo..=hi`.
pub open spec fn int_field(
    m: Seq<(Seq<char>, FieldValue)>,
    name: &'static str,
    lo: int,
    hi: int,
) -> Result<i128, DecodeError> {
    match lookup(m, name@) {
        None => Err(DecodeError::MissingField(name)),
        Some(v) => if repeated(m, name@) {
            Err(DecodeError::DuplicateField(name))
        } else {
            match v {
                FieldValue::Integer(v) => if lo <= v <= hi {
                    Ok(v)
                } else {
                    Err(DecodeError::InvalidValue(name))
                },
                FieldValue::Other => Err(DecodeError::InvalidValue(name)),
            }
        },
    }
}

/// The index of the first entry at or after `from` whose name is `key`.
fn find_from(fields: &Vec<EncodedField>, key: &String, from: usize) -> (r: Option<usize>)
    requires
        from <= fields@.len(),
    ensures
        r is None ==> lookup(entries(fields@).subrange(from as int, fields@.len() as int), key@) is None,
        r matches Some(j) ==> from <= j < fields@.len() && fields@[j as int].name@ == key@
            && (forall|k: int| from <= k < j ==> fields@[k].name@ != key@)
            && lookup(entries(fields@).subrange(from as int, fields@.len() as int), key@) == Some(
            fields@[j as int].value,
        ),
{
    let ghost all = entries(fields@).subrange(from as int, fields@.len() as int);
    let mut i: usize = from;
    while i < fields.len()
        invariant
            from <= i <= fields@.len(),
            all == entries(fields@).subrange(from as int, fields@.len() as int),
            lookup(all, key@) == lookup(entries(fields@).subrange(i as int, fields@.len() as int), key@),
            forall|k: int| from <= k < i ==> fields@[k].name@ != key@,
        decreases fields@.len() - i,
    {
        let ghost rest = entries(fields@).subrange(i as int, fields@.len() as int);
        assert(rest[0] == fields@[i as int]@);
        if fields[i].name == *key {
            return Some(i);
        }
        assert(rest.drop_first() =~= entries(fields@).subrange(i + 1, fields@.len() as int));
        i = i + 1;
    }
    None
}

/// Reads the field named `name`: it must occur once and hold an integer
/// within `lo..=hi`.
pub fn read_int(fields: &Vec<EncodedField>, name: &'static str, lo: i128, hi: i128) -> (r: Result<
    i128,
    DecodeError,
>)
    ensures
        r == int_field(entries(fields@), name, lo as int, hi as int),
{
    let key = name.to_owned();
    let len = fields.len();
    let ghost m = entries(fields@);
    assert(m.subrange(0, fields@.len() as int) =~= m);
    match find_from(fields, &key, 0) {
        None => Err(DecodeError::MissingField(name)),
        Some(i) => {
            proof {
                lemma_repeated_at(m, name@, i as int);
            }
            assert(i < len);
            if find_from(fields, &key, i + 1).is_some() {
                return Err(DecodeError::DuplicateField(name));
            }
            match fields[i].value {
                FieldValue::Integer(v) => if lo <= v && v <= hi {
                    Ok(v)
                } else {
                    Err(DecodeError::InvalidValue(name))
                },
                FieldValue::Other => Err(DecodeError::InvalidValue(name)),
            }
        },
    }
}

} // verus!
