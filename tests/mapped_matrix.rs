use embedding_store::chunk::EmbeddingChunk;
use embedding_store::npy::{side_files_from, NpyError, NpyPersistor};
use ndarray_npy::WriteNpyError;

fn bits(v: &[f32]) -> Vec<u32> {
    v.iter().map(|x| x.to_bits()).collect()
}

fn row_back(region: &[u8], start: usize, dim: usize) -> Vec<f32> {
    (0..dim)
        .map(|j| {
            let p = start + 4 * j;
            f32::from_le_bytes([region[p], region[p + 1], region[p + 2], region[p + 3]])
        })
        .collect()
}

#[test]
fn rows_fill_in_submission_order() {
    let header = 16;
    let mut region = vec![0xAAu8; header + 3 * 2 * 4];
    let mut w = NpyPersistor::new(true);
    assert_eq!(w.put_metadata(3, 2, region.len()), Ok(()));
    w.put_data(&mut region, "zeta", 4, &bits(&[1.5, -2.0]));
    w.put_data(&mut region, "alpha", 1, &bits(&[0.25, 8.0]));
    w.put_data(&mut region, "", 0, &bits(&[-0.0, 3.0]));
    assert_eq!(&region[..header], &[0xAAu8; 16][..]);
    assert_eq!(row_back(&region, header, 2), vec![1.5, -2.0]);
    assert_eq!(row_back(&region, header + 8, 2), vec![0.25, 8.0]);
    assert_eq!(row_back(&region, header + 16, 2), vec![-0.0, 3.0]);
    assert_eq!(w.records_written(), 3);
    let extra = EmbeddingChunk {
        entities: vec!["extra".to_string()],
        occur_counts: vec![1],
        vectors: vec![bits(&[9.0]), bits(&[9.0])],
    };
    assert_eq!(w.put_data_chunk(&mut region, &extra), Err(NpyError::MatrixFull));
    let side = w.finish().unwrap();
    assert_eq!(side.entities_json, "[\n  \"zeta\",\n  \"alpha\",\n  \"\"\n]");
    let occ = side.occurrences_npy.unwrap();
    assert_eq!(&occ[..6], b"\x93NUMPY");
    let n = occ.len();
    assert_eq!(&occ[n - 12..], &[4u8, 0, 0, 0, 1, 0, 0, 0, 0, 0, 0, 0][..]);
}

#[test]
fn region_too_small_is_refused() {
    let mut w = NpyPersistor::new(false);
    assert_eq!(w.put_metadata(2, 3, 23), Err(NpyError::RegionTooSmall));
    assert_eq!(w.put_metadata(2, 3, 24), Ok(()));
}

#[test]
fn empty_matrix_finishes() {
    let mut region = vec![7u8; 10];
    let mut w = NpyPersistor::new(true);
    assert_eq!(w.put_metadata(0, 4, region.len()), Ok(()));
    let one = EmbeddingChunk {
        entities: vec!["x".to_string()],
        occur_counts: vec![1],
        vectors: vec![bits(&[1.0]), bits(&[2.0]), bits(&[3.0]), bits(&[4.0])],
    };
    assert_eq!(w.put_data_chunk(&mut region, &one), Err(NpyError::MatrixFull));
    let none = EmbeddingChunk { entities: vec![], occur_counts: vec![], vectors: vec![vec![]; 4] };
    assert_eq!(w.put_data_chunk(&mut region, &none), Ok(()));
    assert_eq!(region, vec![7u8; 10]);
    let side = w.finish().unwrap();
    assert_eq!(side.entities_json, "[]");
    assert_eq!(&side.occurrences_npy.unwrap()[..6], b"\x93NUMPY");
}

#[test]
fn occurrences_side_file_only_when_enabled() {
    let mut region = vec![0u8; 4];
    let mut w = NpyPersistor::new(false);
    assert_eq!(w.put_metadata(1, 1, region.len()), Ok(()));
    w.put_data(&mut region, "a", 3, &bits(&[1.0]));
    assert_eq!(region, 1.0f32.to_le_bytes().to_vec());
    let side = w.finish().unwrap();
    assert!(side.occurrences_npy.is_none());
    assert_eq!(side.entities_json, "[\n  \"a\"\n]");
}

#[test]
fn batch_rows_are_read_across_columns() {
    let header = 8;
    let mut region = vec![0u8; header + 3 * 2 * 4];
    let mut w = NpyPersistor::new(true);
    assert_eq!(w.put_metadata(3, 2, region.len()), Ok(()));
    let batch = EmbeddingChunk {
        entities: vec!["a".to_string(), "b".to_string()],
        occur_counts: vec![1, 2],
        vectors: vec![bits(&[1.0, 2.0]), bits(&[3.0, 4.0])],
    };
    assert_eq!(w.put_data_chunk(&mut region, &batch), Ok(()));
    assert_eq!(row_back(&region, header, 2), vec![1.0, 3.0]);
    assert_eq!(row_back(&region, header + 8, 2), vec![2.0, 4.0]);
    let before = region.clone();
    assert_eq!(w.put_data_chunk(&mut region, &batch), Err(NpyError::MatrixFull));
    assert_eq!(region, before);
    let wrong_width = EmbeddingChunk {
        entities: vec!["c".to_string()],
        occur_counts: vec![3],
        vectors: vec![bits(&[5.0])],
    };
    assert_eq!(w.put_data_chunk(&mut region, &wrong_width), Err(NpyError::ChunkShape));
    let side = w.finish().unwrap();
    assert_eq!(side.entities_json, "[\n  \"a\",\n  \"b\"\n]");
}

#[test]
fn side_files_from_each_outcome() {
    let bad_json = serde_json::from_str::<u32>("x").unwrap_err();
    assert_eq!(side_files_from(Err(bad_json), None).err(), Some(NpyError::Entities));

    let disk = WriteNpyError::Io(std::io::Error::new(std::io::ErrorKind::Other, "disk"));
    assert_eq!(
        side_files_from(Ok("[]".to_string()), Some(Err(disk))).err(),
        Some(NpyError::Occurrences)
    );

    let only_names = side_files_from(Ok("[]".to_string()), None).unwrap();
    assert_eq!(only_names.entities_json, "[]");
    assert!(only_names.occurrences_npy.is_none());

    let both = side_files_from(Ok("[\n  \"a\"\n]".to_string()), Some(Ok(vec![1, 2, 3]))).unwrap();
    assert_eq!(both.entities_json, "[\n  \"a\"\n]");
    assert_eq!(both.occurrences_npy, Some(vec![1, 2, 3]));
}
