use embedding_store::chunk::EmbeddingChunk;
use embedding_store::columnar::{
    ColumnKind, compact_stamp, output_file_name, readable_stamp, ColumnarError, ParquetVectorPersistor,
    UtcStamp,
};

fn stamp() -> UtcStamp {
    UtcStamp { year: 2024, month: 1, day: 2, hour: 3, minute: 4, second: 5, nanosecond: 0 }
}

fn chunk(n: usize, dims: usize) -> EmbeddingChunk {
    EmbeddingChunk {
        entities: (0..n).map(|i| format!("e{}", i)).collect(),
        occur_counts: (0..n as u32).collect(),
        vectors: (0..dims).map(|j| (0..n).map(|i| (i * 10 + j) as u32).collect()).collect(),
    }
}

#[test]
fn stamp_texts() {
    assert_eq!(compact_stamp(&stamp()), "20240102T030405");
    assert_eq!(readable_stamp(&stamp()), "2024-01-02 03:04:05");
    let far = UtcStamp { year: 12345, month: 12, day: 31, hour: 23, minute: 59, second: 59, nanosecond: 0 };
    assert_eq!(compact_stamp(&far), "+123451231T235959");
    let early = UtcStamp { year: -5, month: 6, day: 7, hour: 0, minute: 0, second: 0, nanosecond: 0 };
    assert_eq!(readable_stamp(&early), "-0005-06-07 00:00:00");
    let small = UtcStamp { year: 33, month: 6, day: 7, hour: 0, minute: 0, second: 0, nanosecond: 0 };
    assert_eq!(compact_stamp(&small), "00330607T000000");
}

#[test]
fn file_name_replaces_out_suffix() {
    assert_eq!(output_file_name("emb.out", &stamp()), "emb_20240102T030405.parquet");
    assert_eq!(output_file_name("plain", &stamp()), "plain");
    assert_eq!(
        output_file_name("s3://bucket/run.out", &stamp()),
        "s3://bucket/run_20240102T030405.parquet"
    );
}

#[test]
fn schema_columns() {
    let w = ParquetVectorPersistor::with_stamp("emb.out", 3, &stamp());
    assert_eq!(w.column_names(), vec!["entity", "occur_count", "datetime", "f0", "f1", "f2"]);
    assert_eq!(w.file_name(), "emb_20240102T030405.parquet");
    assert_eq!(w.timestamp(), "2024-01-02 03:04:05");
    let z = ParquetVectorPersistor::with_stamp("z.out", 0, &stamp());
    assert_eq!(z.column_names(), vec!["entity", "occur_count", "datetime"]);
}

#[test]
fn single_record_is_ignored_between_batches() {
    let mut w = ParquetVectorPersistor::with_stamp("emb.out", 2, &stamp());
    w.put_metadata(2, 2);
    let g = w.put_data_chunk(chunk(2, 2)).unwrap();
    assert_eq!(g.timestamps, vec!["2024-01-02 03:04:05".to_string(); 2]);
    assert_eq!(
        w.put_data("x", 1, &vec![1.0f32.to_bits(), 2.0f32.to_bits()]),
        Err(ColumnarError::SingleRecordUnsupported)
    );
    let g = w.put_data_chunk(chunk(3, 2)).unwrap();
    assert_eq!(g.timestamps.len(), 3);
    assert_eq!(g.entities, vec!["e0", "e1", "e2"]);
    assert_eq!(g.columns, vec![vec![0, 10, 20], vec![1, 11, 21]]);
    w.finish();
}

#[test]
fn misshapen_batches_are_refused() {
    let mut w = ParquetVectorPersistor::with_stamp("emb.out", 2, &stamp());
    assert_eq!(w.put_data_chunk(chunk(2, 3)).err(), Some(ColumnarError::ChunkShape));
    let mut ragged = chunk(2, 2);
    ragged.vectors[1].pop();
    assert_eq!(w.put_data_chunk(ragged).err(), Some(ColumnarError::ChunkShape));
}

#[test]
fn empty_batch_gives_empty_row_group() {
    let mut w = ParquetVectorPersistor::with_stamp("emb.out", 4, &stamp());
    let g = w.put_data_chunk(chunk(0, 4)).unwrap();
    assert!(g.entities.is_empty() && g.timestamps.is_empty());
    assert_eq!(g.columns, vec![Vec::<u32>::new(); 4]);
    w.finish();
}

#[test]
fn current_time_writer_keeps_dimension() {
    let w = ParquetVectorPersistor::new("run.out".to_string(), 1);
    assert!(w.file_name().starts_with("run_"));
    assert!(w.file_name().ends_with(".parquet"));
    assert_eq!(w.timestamp().len(), 19);
    assert_eq!(w.column_names().len(), 4);
}

#[test]
fn empty_writer_finishes_without_row_groups() {
    let mut w = ParquetVectorPersistor::with_stamp("none.out", 2, &stamp());
    w.put_metadata(0, 2);
    assert!(!w.finished());
    w.finish();
    assert!(w.finished());
}

#[test]
fn batch_becomes_row_group_untransposed() {
    let mut w = ParquetVectorPersistor::with_stamp("e.out", 2, &stamp());
    let batch = EmbeddingChunk {
        entities: vec!["a".to_string(), "b".to_string()],
        occur_counts: vec![1, 2],
        vectors: vec![
            vec![1.0f32.to_bits(), 2.0f32.to_bits()],
            vec![3.0f32.to_bits(), 4.0f32.to_bits()],
        ],
    };
    let g = w.put_data_chunk(batch).unwrap();
    assert_eq!(g.entities, vec!["a", "b"]);
    assert_eq!(g.occur_counts, vec![1, 2]);
    assert_eq!(g.timestamps, vec!["2024-01-02 03:04:05"; 2]);
    assert_eq!(f32::from_bits(g.columns[0][0]), 1.0);
    assert_eq!(f32::from_bits(g.columns[1][0]), 3.0);
    assert_eq!(f32::from_bits(g.columns[0][1]), 2.0);
    assert_eq!(f32::from_bits(g.columns[1][1]), 4.0);
    assert_eq!(
        w.column_kinds(),
        vec![ColumnKind::Text, ColumnKind::Count, ColumnKind::Text, ColumnKind::Float32, ColumnKind::Float32]
    );
}

#[test]
fn leap_second_is_written_as_sixty() {
    let leap = UtcStamp { year: 2016, month: 12, day: 31, hour: 23, minute: 59, second: 59, nanosecond: 1_200_000_000 };
    assert_eq!(compact_stamp(&leap), "20161231T235960");
    assert_eq!(readable_stamp(&leap), "2016-12-31 23:59:60");
}
