use embedding_store::decimal::decimal_string;
use embedding_store::text::TextFileVectorPersistor;

fn render(v: &[f32]) -> Vec<String> {
    v.iter()
        .map(|x| ryu::Buffer::new().format_finite(*x).to_string())
        .collect()
}

#[test]
fn header_record_and_trailing_break() {
    let mut w = TextFileVectorPersistor::new(true);
    let mut out = String::new();
    out.push_str(&w.put_metadata(2, 2));
    out.push_str(&w.put_data("x", 5, &render(&[1.5, -2.0])));
    assert_eq!(out, "2 2\nx 5 1.5 -2.0");
    out.push_str(&w.finish());
    assert_eq!(out, "2 2\nx 5 1.5 -2.0\n");
}

#[test]
fn record_without_occurrence_count() {
    let mut w = TextFileVectorPersistor::new(false);
    assert_eq!(w.put_metadata(1, 3), "1 3");
    assert_eq!(w.put_data("node", 77, &render(&[0.1, 2.0, 1e-7])), "\nnode 0.1 2.0 1e-7");
}

#[test]
fn empty_writer_output() {
    let mut w = TextFileVectorPersistor::new(true);
    let mut out = w.put_metadata(0, 128);
    out.push_str(&w.finish());
    assert_eq!(out, "0 128\n");
}

#[test]
fn decimal_rendering() {
    assert_eq!(decimal_string(0), "0");
    assert_eq!(decimal_string(10), "10");
    assert_eq!(decimal_string(4294967295), "4294967295");
    assert_eq!(decimal_string(u64::MAX), "18446744073709551615");
}

#[test]
fn batch_lines_read_across_columns() {
    let mut w = TextFileVectorPersistor::new(true);
    let mut out = w.put_metadata(2, 2);
    let columns = vec![render(&[1.0, 2.0]), render(&[3.0, 4.0])];
    out.push_str(&w.put_data_chunk(&vec!["a".to_string(), "b".to_string()], &vec![1, 2], &columns));
    out.push_str(&w.finish());
    assert_eq!(out, "2 2\na 1 1.0 3.0\nb 2 2.0 4.0\n");
}
