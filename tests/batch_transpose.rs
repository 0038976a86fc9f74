use embedding_store::chunk::EmbeddingChunk;

fn bits(v: &[f32]) -> Vec<u32> {
    v.iter().map(|x| x.to_bits()).collect()
}

#[test]
fn transpose_reconstructs_records_in_order() {
    let chunk = EmbeddingChunk {
        entities: vec!["a".to_string(), "b".to_string()],
        occur_counts: vec![1, 2],
        vectors: vec![bits(&[1.0, 2.0]), bits(&[3.0, 4.0])],
    };
    assert!(chunk.is_well_formed());
    assert_eq!(chunk.entities[0], "a");
    assert_eq!(chunk.occur_counts[0], 1);
    assert_eq!(chunk.record_vector(0), bits(&[1.0, 3.0]));
    assert_eq!(chunk.entities[1], "b");
    assert_eq!(chunk.occur_counts[1], 2);
    assert_eq!(chunk.record_vector(1), bits(&[2.0, 4.0]));
}

#[test]
fn ragged_batch_is_not_well_formed() {
    let chunk = EmbeddingChunk {
        entities: vec!["a".to_string(), "b".to_string()],
        occur_counts: vec![1, 2],
        vectors: vec![bits(&[1.0, 2.0]), bits(&[3.0])],
    };
    assert!(!chunk.is_well_formed());
    let counts_short = EmbeddingChunk {
        entities: vec!["a".to_string()],
        occur_counts: vec![],
        vectors: vec![],
    };
    assert!(!counts_short.is_well_formed());
}

#[test]
fn batch_without_columns_gives_empty_vectors() {
    let chunk = EmbeddingChunk {
        entities: vec!["a".to_string()],
        occur_counts: vec![9],
        vectors: vec![],
    };
    assert!(chunk.is_well_formed());
    assert_eq!(chunk.record_vector(0), Vec::<u32>::new());
}
