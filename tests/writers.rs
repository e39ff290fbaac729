use deflate_tokens::huffman_table::{
    END_OF_BLOCK_POSITION, NUM_DISTANCE_CODES, NUM_USED_LITERALS_AND_LENGTHS,
};
use deflate_tokens::lzvalue::LZValue;
use deflate_tokens::output_writer::{DynamicWriter, FixedWriter, OutputWriter};

fn assert_seeded(w: &DynamicWriter) {
    let (ll, d) = w.get_frequencies();
    assert_eq!(ll.len(), NUM_USED_LITERALS_AND_LENGTHS);
    assert_eq!(d.len(), NUM_DISTANCE_CODES);
    for (i, &f) in ll.iter().enumerate() {
        assert_eq!(f, if i == END_OF_BLOCK_POSITION { 1 } else { 0 });
    }
    assert!(d.iter().all(|&f| f == 0));
}

#[test]
fn token_constructors() {
    assert_eq!(LZValue::literal(7), LZValue::Literal(7));
    assert_eq!(LZValue::length(300), LZValue::Length(300));
    assert_eq!(LZValue::distance(9), LZValue::Distance(9));
}

#[test]
fn new_dynamic_writer_is_seeded() {
    let mut w = DynamicWriter::new();
    assert_seeded(&w);
    assert!(w.get_buffer().is_empty());
}

#[test]
fn fixed_writer_records_in_call_order() {
    let mut w = FixedWriter::new();
    w.write_literal(1);
    w.write_length_distance(10, 300);
    w.write_literal(2);
    assert_eq!(
        w.buffer,
        vec![
            LZValue::Literal(1),
            LZValue::Length(10),
            LZValue::Distance(300),
            LZValue::Literal(2),
        ]
    );
    w.clear_buffer();
    assert!(w.buffer.is_empty());
}

#[test]
fn dynamic_writer_counts_codes() {
    let mut w = DynamicWriter::new();
    w.write_literal(b'a');
    w.write_literal(b'a');
    w.write_length_distance(3, 1);
    w.write_length_distance(13, 7);
    w.write_length_distance(14, 8);
    let (ll, d) = w.get_frequencies();
    assert_eq!(ll[usize::from(b'a')], 2);
    assert_eq!(ll[257], 1);
    assert_eq!(ll[266], 2);
    assert_eq!(ll[END_OF_BLOCK_POSITION], 1);
    assert_eq!(d[0], 1);
    assert_eq!(d[5], 2);
}

#[test]
fn frequency_sums_match_writes() {
    let mut w = DynamicWriter::new();
    let literals = 37u32;
    let matches = 11u32;
    for i in 0..literals {
        w.write_literal((i * 7) as u8);
    }
    for i in 0..matches {
        w.write_length_distance(3 + (i * 23) as u16, 1 + (i * 2999) as u16);
    }
    let (ll, d) = w.get_frequencies();
    let ll_sum: u32 = ll.iter().map(|&f| u32::from(f)).sum();
    let d_sum: u32 = d.iter().map(|&f| u32::from(f)).sum();
    assert_eq!(ll_sum, literals + matches + 1);
    assert_eq!(d_sum, matches);
    assert_eq!(w.get_buffer().len(), (literals + 2 * matches) as usize);
}

#[test]
fn match_is_length_then_distance() {
    let mut w = DynamicWriter::new();
    w.write_literal(9);
    w.write_length_distance(258, 32768);
    w.write_length_distance(3, 1);
    assert_eq!(
        w.get_buffer().to_vec(),
        vec![
            LZValue::Literal(9),
            LZValue::Length(258),
            LZValue::Distance(32768),
            LZValue::Length(3),
            LZValue::Distance(1),
        ]
    );
}

#[test]
fn fixed_and_dynamic_record_the_same_tokens() {
    let mut f = FixedWriter::new();
    let mut d = DynamicWriter::new();
    for (lit, len, dist) in [(0u8, 3u16, 1u16), (255, 258, 32768), (65, 100, 1000)] {
        f.write_literal(lit);
        d.write_literal(lit);
        f.write_length_distance(len, dist);
        d.write_length_distance(len, dist);
    }
    assert_eq!(f.buffer.as_slice(), d.get_buffer());
}

#[test]
fn write_then_reset_then_write() {
    let mut w = DynamicWriter::new();
    w.write_literal(0x41);
    w.write_length_distance(258, 1);
    w.clear();
    assert_seeded(&w);
    w.write_literal(0x00);
    assert_eq!(w.get_buffer().to_vec(), vec![LZValue::Literal(0x00)]);
    let (ll, d) = w.get_frequencies();
    assert_eq!(ll[0], 1);
    assert_eq!(ll[0x41], 0);
    assert_eq!(ll[285], 0);
    assert_eq!(ll[END_OF_BLOCK_POSITION], 1);
    assert!(d.iter().all(|&f| f == 0));
}

#[test]
fn clearing_frequencies_keeps_the_buffer() {
    let mut w = DynamicWriter::new();
    w.write_literal(5);
    w.clear_frequencies();
    assert_seeded(&w);
    assert_eq!(w.get_buffer().to_vec(), vec![LZValue::Literal(5)]);
}

#[test]
fn clearing_data_keeps_the_frequencies() {
    let mut w = DynamicWriter::new();
    w.write_literal(5);
    w.write_length_distance(4, 2);
    w.clear_data();
    assert!(w.get_buffer().is_empty());
    let (ll, d) = w.get_frequencies();
    assert_eq!(ll[5], 1);
    assert_eq!(ll[258], 1);
    assert_eq!(d[1], 1);
}
