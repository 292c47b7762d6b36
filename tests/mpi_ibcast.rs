use interpol::builder::{MpiIbcastBuilder, MpiIbcastBuilderError};
use interpol::codec::{read_int, DecodeError, EncodedField, FieldValue};
use interpol::mpi_ibcast::MpiIbcast;

const MPI_COMM_WORLD: i32 = 0;

fn field(name: &str, value: i128) -> EncodedField {
    EncodedField { name: name.to_string(), value: FieldValue::Integer(value) }
}

fn render(fields: &[EncodedField]) -> String {
    let parts: Vec<String> = fields
        .iter()
        .map(|f| match f.value {
            FieldValue::Integer(v) => format!("\"{}\":{}", f.name, v),
            FieldValue::Other => format!("\"{}\":null", f.name),
        })
        .collect();
    format!("{{{}}}", parts.join(","))
}

#[test]
fn builds() {
    let ibcast_new = MpiIbcast::new(0, 1, 8, MPI_COMM_WORLD, 7, 1024, 2048);
    let ibcast_builder = MpiIbcastBuilder::default()
        .current_rank(0)
        .root_rank(1)
        .nb_bytes(8)
        .comm(MPI_COMM_WORLD)
        .req(7)
        .tsc(1024)
        .duration(2048)
        .build()
        .expect("failed to build `MpiIbcast`");

    assert_eq!(ibcast_new, ibcast_builder);
}

#[test]
fn serializes() {
    let ibcast = MpiIbcast::new(0, 0, 8, MPI_COMM_WORLD, 7, 1024, 2048);
    let json = String::from("{\"current_rank\":0,\"root_rank\":0,\"nb_bytes\":8,\"comm\":0,\"req\":7,\"tsc\":1024,\"duration\":2048}");
    let serialized = render(&ibcast.encode());

    assert_eq!(json, serialized);
}

#[test]
fn deserializes() {
    let ibcast = MpiIbcastBuilder::default()
        .current_rank(1)
        .root_rank(0)
        .nb_bytes(8)
        .comm(MPI_COMM_WORLD)
        .req(7)
        .tsc(1024)
        .duration(2048)
        .build()
        .expect("failed to build `MpiIbcast`");
    let serialized = ibcast.encode();
    let deserialized = MpiIbcast::decode(&serialized).expect("failed to deserialize `MpiIbcast`");

    assert_eq!(ibcast, deserialized);
}

#[test]
fn builder_in_any_order_matches_new() {
    let built = MpiIbcastBuilder::default()
        .duration(5)
        .tsc(4)
        .req(-3)
        .comm(2)
        .nb_bytes(1)
        .root_rank(-7)
        .current_rank(9)
        .build()
        .unwrap();
    assert_eq!(built, MpiIbcast::new(9, -7, 1, 2, -3, 4, 5));
}

#[test]
fn builder_last_setting_wins() {
    let built = MpiIbcastBuilder::default()
        .current_rank(1)
        .current_rank(2)
        .root_rank(0)
        .nb_bytes(8)
        .comm(0)
        .req(7)
        .tsc(1024)
        .duration(2048)
        .build()
        .unwrap();
    assert_eq!(built, MpiIbcast::new(2, 0, 8, 0, 7, 1024, 2048));
}

#[test]
fn empty_builder_names_first_field() {
    let err = MpiIbcastBuilder::default().build().unwrap_err();
    assert_eq!(err, MpiIbcastBuilderError::UninitializedField("current_rank"));
}

#[test]
fn builder_names_first_missing_field() {
    let err = MpiIbcastBuilder::default()
        .current_rank(0)
        .nb_bytes(8)
        .comm(0)
        .req(7)
        .duration(2048)
        .build()
        .unwrap_err();
    assert_eq!(err, MpiIbcastBuilderError::UninitializedField("root_rank"));
}

#[test]
fn builder_missing_only_last_field() {
    let err = MpiIbcastBuilder::default()
        .current_rank(0)
        .root_rank(0)
        .nb_bytes(8)
        .comm(0)
        .req(7)
        .tsc(1024)
        .build()
        .unwrap_err();
    assert_eq!(err, MpiIbcastBuilderError::UninitializedField("duration"));
}

#[test]
fn encoding_keeps_declaration_order() {
    let fields = MpiIbcast::new(0, 0, 8, 0, 7, 1024, 2048).encode();
    let names: Vec<&str> = fields.iter().map(|f| f.name.as_str()).collect();
    assert_eq!(names, vec!["current_rank", "root_rank", "nb_bytes", "comm", "req", "tsc", "duration"]);
    let values: Vec<FieldValue> = fields.iter().map(|f| f.value).collect();
    assert_eq!(
        values,
        vec![
            FieldValue::Integer(0),
            FieldValue::Integer(0),
            FieldValue::Integer(8),
            FieldValue::Integer(0),
            FieldValue::Integer(7),
            FieldValue::Integer(1024),
            FieldValue::Integer(2048),
        ]
    );
}

#[test]
fn round_trip_at_extremes() {
    let rec = MpiIbcast::new(i32::MIN, i32::MAX, u32::MAX, i32::MIN, i32::MAX, u64::MAX, 0);
    assert_eq!(MpiIbcast::decode(&rec.encode()), Ok(rec));
}

#[test]
fn decode_accepts_any_order_and_ignores_other_names() {
    let fields = vec![
        field("duration", 2048),
        field("tsc", 1024),
        field("extra", -1),
        field("req", 7),
        field("comm", 0),
        field("nb_bytes", 8),
        field("root_rank", 1),
        field("current_rank", 3),
    ];
    assert_eq!(MpiIbcast::decode(&fields), Ok(MpiIbcast::new(3, 1, 8, 0, 7, 1024, 2048)));
}

#[test]
fn decode_reports_missing_field() {
    let mut fields = MpiIbcast::new(0, 0, 8, 0, 7, 1024, 2048).encode();
    fields.remove(2);
    assert_eq!(MpiIbcast::decode(&fields), Err(DecodeError::MissingField("nb_bytes")));
}

#[test]
fn decode_rejects_value_out_of_range() {
    let mut fields = MpiIbcast::new(0, 0, 8, 0, 7, 1024, 2048).encode();
    fields[2] = field("nb_bytes", -1);
    assert_eq!(MpiIbcast::decode(&fields), Err(DecodeError::InvalidValue("nb_bytes")));
    fields[2] = field("nb_bytes", 8);
    fields[0] = field("current_rank", i32::MAX as i128 + 1);
    assert_eq!(MpiIbcast::decode(&fields), Err(DecodeError::InvalidValue("current_rank")));
}

#[test]
fn decode_rejects_value_that_is_not_an_integer() {
    let mut fields = MpiIbcast::new(0, 0, 8, 0, 7, 1024, 2048).encode();
    fields[5] = EncodedField { name: "tsc".to_string(), value: FieldValue::Other };
    assert_eq!(MpiIbcast::decode(&fields), Err(DecodeError::InvalidValue("tsc")));
}

#[test]
fn read_int_rejects_repeated_name() {
    let fields = vec![field("a", 1), field("b", 2), field("a", 3)];
    assert_eq!(read_int(&fields, "a", 0, 10), Err(DecodeError::DuplicateField("a")));
    assert_eq!(read_int(&fields, "b", 0, 1), Err(DecodeError::InvalidValue("b")));
    assert_eq!(read_int(&fields, "b", 0, 2), Ok(2));
    assert_eq!(read_int(&fields, "c", 0, 10), Err(DecodeError::MissingField("c")));
}

#[test]
fn decode_rejects_duplicate_field() {
    let mut fields = MpiIbcast::new(0, 0, 8, 0, 7, 1024, 2048).encode();
    fields.push(field("req", 7));
    assert_eq!(MpiIbcast::decode(&fields), Err(DecodeError::DuplicateField("req")));
}
