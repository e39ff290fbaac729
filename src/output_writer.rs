//! Capture of LZ77 output during match finding, with or without the symbol
//! statistics that dynamic Huffman codes are built from.
use vstd::prelude::*;
use crate::huffman_table::{
    NUM_LITERALS_AND_LENGTHS, NUM_USED_LITERALS_AND_LENGTHS, NUM_DISTANCE_CODES,
    END_OF_BLOCK_POSITION, get_length_code, get_distance_code, is_valid_length,
    is_valid_distance, length_code, distance_code, lemma_code_ranges,
};
use crate::lzvalue::LZValue;

verus! {

/// The index in the combined literal / length alphabet that a token counts
/// toward: a literal its own byte value, a length its length code. A distance
/// counts toward the distance alphabet instead.
pub open spec fn literal_length_symbol(token: LZValue) -> Option<int> {
    match token {
        LZValue::Literal(byte) => Some(byte as int),
        LZValue::Length(length) => Some(length_code(length as int)),
        LZValue::Distance(_) => None,
    }
}

/// The index in the distance alphabet that a token counts toward, if any.
pub open spec fn distance_symbol(token: LZValue) -> Option<int> {
    match token {
        LZValue::Distance(distance) => Some(distance_code(distance as int)),
        _ => None,
    }
}

/// The literal / length frequency of `symbol` once `tokens` have been
/// recorded since the statistics were reset: the number of tokens that count
/// toward it, plus the one end-of-block marker that every block carries.
pub open spec fn literal_length_count(tokens: Seq<LZValue>, symbol: int) -> int
    decreases tokens.len(),
{
    if tokens.len() == 0 {
        if symbol == END_OF_BLOCK_POSITION {
            1
        } else {
            0
        }
    } else {
        literal_length_count(tokens.drop_last(), symbol) + if literal_length_symbol(tokens.last())
            == Some(symbol) {
            1int
        } else {
            0int
        }
    }
}

/// The distance frequency of `symbol` once `tokens` have been recorded since
/// the statistics were reset.
pub open spec fn distance_count(tokens: Seq<LZValue>, symbol: int) -> int
    decreases tokens.len(),
{
    if tokens.len() == 0 {
        0
    } else {
        distance_count(tokens.drop_last(), symbol) + if distance_symbol(tokens.last()) == Some(
            symbol,
        ) {
            1int
        } else {
            0int
        }
    }
}

/// The sum of the literal / length frequencies of the symbols below `n`.
pub open spec fn literal_length_total(tokens: Seq<LZValue>, n: int) -> int
    decreases n,
{
    if n <= 0 {
        0
    } else {
        literal_length_total(tokens, n - 1) + literal_length_count(tokens, n - 1)
    }
}

/// The sum of the distance frequencies of the symbols below `n`.
pub open spec fn distance_total(tokens: Seq<LZValue>, n: int) -> int
    decreases n,
{
    if n <= 0 {
        0
    } else {
        distance_total(tokens, n - 1) + distance_count(tokens, n - 1)
    }
}

/// The number of literals and match lengths among `tokens`.
pub open spec fn num_literal_length_tokens(tokens: Seq<LZValue>) -> int
    decreases tokens.len(),
{
    if tokens.len() == 0 {
        0
    } else {
        num_literal_length_tokens(tokens.drop_last()) + if tokens.last() is Distance {
            0int
        } else {
            1int
        }
    }
}

/// The number of match distances among `tokens`.
pub open spec fn num_distance_tokens(tokens: Seq<LZValue>) -> int
    decreases tokens.len(),
{
    if tokens.len() == 0 {
        0
    } else {
        num_distance_tokens(tokens.drop_last()) + if tokens.last() is Distance {
            1int
        } else {
            0int
        }
    }
}

/// Every match length and distance among `tokens` has a code.
pub open spec fn tokens_have_codes(tokens: Seq<LZValue>) -> bool {
    forall|i: int|
        0 <= i < tokens.len() ==> match #[trigger] tokens[i] {
            LZValue::Length(length) => is_valid_length(length as int),
            LZValue::Distance(distance) => is_valid_distance(distance as int),
            LZValue::Literal(_) => true,
        }
}

/// Before any token is counted, the end-of-block code has frequency 1 and
/// every other literal / length code and every distance code has frequency 0.
pub proof fn lemma_seeded_counts(symbol: int)
    ensures
        literal_length_count(Seq::empty(), symbol) == if symbol == END_OF_BLOCK_POSITION {
            1int
        } else {
            0int
        },
        distance_count(Seq::empty(), symbol) == 0,
{
}

/// Recording one more token raises the frequency of its symbol by one and
/// leaves every other frequency as it was.
pub proof fn lemma_counts_push(tokens: Seq<LZValue>, token: LZValue, symbol: int)
    ensures
        literal_length_count(tokens.push(token), symbol) == literal_length_count(tokens, symbol)
            + if literal_length_symbol(token) == Some(symbol) {
            1int
        } else {
            0int
        },
        distance_count(tokens.push(token), symbol) == distance_count(tokens, symbol) + if distance_symbol(
            token,
        ) == Some(symbol) {
            1int
        } else {
            0int
        },
{
    assert(tokens.push(token).drop_last() =~= tokens);
}

proof fn lemma_seeded_totals(n: int)
    requires
        0 <= n,
    ensures
        literal_length_total(Seq::empty(), n) == if n > END_OF_BLOCK_POSITION {
            1int
        } else {
            0int
        },
        distance_total(Seq::empty(), n) == 0,
    decreases n,
{
    if n > 0 {
        lemma_seeded_totals(n - 1);
    }
}

/// Counting one more token raises the total below `n` by one exactly when
/// its symbol lies below `n`.
proof fn lemma_totals_push(tokens: Seq<LZValue>, token: LZValue, n: int)
    requires
        0 <= n,
    ensures
        literal_length_total(tokens.push(token), n) == literal_length_total(tokens, n) + match
            literal_length_symbol(token) {
            Some(c) => if 0 <= c < n {
                1int
            } else {
                0int
            },
            None => 0int,
        },
        distance_total(tokens.push(token), n) == distance_total(tokens, n) + match distance_symbol(
            token,
        ) {
            Some(c) => if 0 <= c < n {
                1int
            } else {
                0int
            },
            None => 0int,
        },
    decreases n,
{
    assert(tokens.push(token).drop_last() =~= tokens);
    if n > 0 {
        lemma_totals_push(tokens, token, n - 1);
    }
}

/// Over any tokens whose lengths and distances have codes, the literal /
/// length frequencies add up to the number of literals and matches plus the
/// end-of-block marker, and the distance frequencies to the number of matches.
pub proof fn lemma_frequency_totals(tokens: Seq<LZValue>)
    requires
        tokens_have_codes(tokens),
    ensures
        literal_length_total(tokens, NUM_USED_LITERALS_AND_LENGTHS as int)
            == num_literal_length_tokens(tokens) + 1,
        distance_total(tokens, NUM_DISTANCE_CODES as int) == num_distance_tokens(tokens),
    decreases tokens.len(),
{
    if tokens.len() == 0 {
        assert(tokens =~= Seq::empty());
        lemma_seeded_totals(NUM_USED_LITERALS_AND_LENGTHS as int);
        lemma_seeded_totals(NUM_DISTANCE_CODES as int);
    } else {
        let rest = tokens.drop_last();
        let token = tokens.last();
        assert(tokens_have_codes(rest)) by {
            assert forall|i: int| 0 <= i < rest.len() implies rest[i] == tokens[i] by {}
        }
        lemma_frequency_totals(rest);
        assert(rest.push(token) =~= tokens);
        lemma_totals_push(rest, token, NUM_USED_LITERALS_AND_LENGTHS as int);
        lemma_totals_push(rest, token, NUM_DISTANCE_CODES as int);
        assert(tokens[tokens.len() - 1] == token);
        match token {
            LZValue::Length(length) => lemma_code_ranges(length as int, 1),
            LZValue::Distance(distance) => lemma_code_ranges(3, distance as int),
            LZValue::Literal(_) => {},
        }
    }
}

/// The interface through which the match finder emits its output, so that
/// one match finder serves both fixed and dynamic Huffman encoding.
pub trait OutputWriter {
    /// The tokens held in the buffer, in the order they were written.
    spec fn tokens(&self) -> Seq<LZValue>;

    /// Whether the writer has room to record `literal`.
    spec fn can_write_literal(&self, literal: u8) -> bool;

    /// Whether the writer has room to record a match of this length and distance.
    spec fn can_write_length_distance(&self, length: u16, distance: u16) -> bool;

    /// Appends a literal byte.
    fn write_literal(&mut self, literal: u8)
        requires
            old(self).can_write_literal(literal),
        ensures
            final(self).tokens() == old(self).tokens().push(LZValue::Literal(literal)),
    ;

    /// Appends a match: its length, then directly after it its distance.
    fn write_length_distance(&mut self, length: u16, distance: u16)
        requires
            is_valid_length(length as int),
            is_valid_distance(distance as int),
            old(self).can_write_length_distance(length, distance),
        ensures
            final(self).tokens() == old(self).tokens().push(LZValue::Length(length)).push(
                LZValue::Distance(distance),
            ),
    ;
}

/// `OutputWriter` that doesn't store frequency information.
pub struct FixedWriter {
    pub buffer: Vec<LZValue>,
}

impl FixedWriter {
    pub fn new() -> (r: FixedWriter)
        ensures
            r.buffer@ == Seq::<LZValue>::empty(),
    {
        FixedWriter { buffer: Vec::with_capacity(10000) }
    }

    pub fn clear_buffer(&mut self)
        ensures
            final(self).buffer@ == Seq::<LZValue>::empty(),
    {
        self.buffer.clear();
    }
}

impl OutputWriter for FixedWriter {
    open spec fn tokens(&self) -> Seq<LZValue> {
        self.buffer@
    }

    open spec fn can_write_literal(&self, literal: u8) -> bool {
        true
    }

    open spec fn can_write_length_distance(&self, length: u16, distance: u16) -> bool {
        true
    }

    fn write_literal(&mut self, literal: u8) {
        self.buffer.push(LZValue::literal(literal));
    }

    fn write_length_distance(&mut self, length: u16, distance: u16) {
        self.buffer.push(LZValue::length(length));
        self.buffer.push(LZValue::distance(distance));
    }
}

/// `OutputWriter` that keeps track of how often each literal / length code
/// and each distance code is written, for building dynamic Huffman codes.
///
/// The literal / length table has room for the whole canonical alphabet,
/// including its two trailing codes that never occur in data; those are left
/// out of what `get_frequencies` hands on.
pub struct DynamicWriter {
    fixed_writer: FixedWriter,
    frequencies: Vec<u16>,
    distance_frequencies: Vec<u16>,
    /// The tokens written since the frequencies were last reset.
    counted: Ghost<Seq<LZValue>>,
}

/// Returns a table of `len` zero counts.
fn zeroed_table(len: usize) -> (r: Vec<u16>)
    ensures
        r@.len() == len,
        forall|i: int| 0 <= i < len ==> r@[i] == 0,
{
    let mut table: Vec<u16> = Vec::with_capacity(len);
    let mut i: usize = 0;
    while i < len
        invariant
            i <= len,
            table@.len() == i,
            forall|j: int| 0 <= j < i ==> table@[j] == 0,
        decreases len - i,
    {
        table.push(0);
        i = i + 1;
    }
    table
}

/// Sets every count of `table` back to zero, keeping its storage.
fn zero_table(table: &mut Vec<u16>)
    ensures
        final(table)@.len() == old(table)@.len(),
        forall|i: int| 0 <= i < final(table)@.len() ==> final(table)@[i] == 0,
{
    let mut i: usize = 0;
    while i < table.len()
        invariant
            i <= table@.len(),
            table@.len() == old(table)@.len(),
            forall|j: int| 0 <= j < i ==> table@[j] == 0,
        decreases table@.len() - i,
    {
        table[i] = 0;
        i = i + 1;
    }
}

impl DynamicWriter {
    /// The tokens written since the frequencies were last reset.
    pub closed spec fn counted(&self) -> Seq<LZValue> {
        self.counted@
    }

    /// The tables have their alphabets' sizes, and each entry is the
    /// frequency of its symbol over the counted tokens.
    pub closed spec fn wf(&self) -> bool {
        &&& self.frequencies@.len() == NUM_LITERALS_AND_LENGTHS
        &&& self.distance_frequencies@.len() == NUM_DISTANCE_CODES
        &&& forall|i: int|
            0 <= i < NUM_LITERALS_AND_LENGTHS ==> self.frequencies@[i] as int
                == literal_length_count(self.counted@, i)
        &&& forall|i: int|
            0 <= i < NUM_DISTANCE_CODES ==> self.distance_frequencies@[i] as int
                == distance_count(self.counted@, i)
    }

    /// Frequencies seeded with the single end-of-block marker of a block.
    proof fn lemma_seeded(&self)
        requires
            self.frequencies@.len() == NUM_LITERALS_AND_LENGTHS,
            self.distance_frequencies@.len() == NUM_DISTANCE_CODES,
            self.counted@ == Seq::<LZValue>::empty(),
            forall|i: int|
                0 <= i < NUM_LITERALS_AND_LENGTHS ==> self.frequencies@[i] == (if i
                    == END_OF_BLOCK_POSITION {
                    1u16
                } else {
                    0u16
                }),
            forall|i: int| 0 <= i < NUM_DISTANCE_CODES ==> self.distance_frequencies@[i] == 0,
        ensures
            self.wf(),
    {
    }

    pub fn new() -> (r: DynamicWriter)
        ensures
            r.wf(),
            r.tokens() == Seq::<LZValue>::empty(),
            r.counted() == Seq::<LZValue>::empty(),
    {
        let mut w = DynamicWriter {
            fixed_writer: FixedWriter::new(),
            frequencies: zeroed_table(NUM_LITERALS_AND_LENGTHS),
            distance_frequencies: zeroed_table(NUM_DISTANCE_CODES),
            counted: Ghost(Seq::empty()),
        };
        // This will always be 1,
        // since there will always only be one end of block marker in each block
        w.frequencies[END_OF_BLOCK_POSITION] = 1;
        proof {
            w.lemma_seeded();
        }
        w
    }

    /// The literal / length frequencies of the used alphabet (the two
    /// trailing codes left out) and the distance frequencies.
    pub fn get_frequencies(&self) -> (r: (&[u16], &[u16]))
        requires
            self.wf(),
        ensures
            r.0@.len() == NUM_USED_LITERALS_AND_LENGTHS,
            r.1@.len() == NUM_DISTANCE_CODES,
            forall|i: int|
                0 <= i < NUM_USED_LITERALS_AND_LENGTHS ==> r.0@[i] as int == literal_length_count(
                    self.counted(),
                    i,
                ),
            forall|i: int|
                0 <= i < NUM_DISTANCE_CODES ==> r.1@[i] as int == distance_count(
                    self.counted(),
                    i,
                ),
    {
        (
            vstd::slice::slice_subrange(
                self.frequencies.as_slice(),
                0,
                NUM_USED_LITERALS_AND_LENGTHS,
            ),
            self.distance_frequencies.as_slice(),
        )
    }

    /// Resets the frequencies to those of an empty block; the buffer is kept.
    pub fn clear_frequencies(&mut self)
        requires
            old(self).wf(),
        ensures
            final(self).wf(),
            final(self).counted() == Seq::<LZValue>::empty(),
            final(self).tokens() == old(self).tokens(),
    {
        zero_table(&mut self.frequencies);
        zero_table(&mut self.distance_frequencies);
        self.frequencies[END_OF_BLOCK_POSITION] = 1;
        self.counted = Ghost(Seq::empty());
        proof {
            self.lemma_seeded();
        }
    }

    /// Empties the buffer; the frequencies are kept.
    pub fn clear_data(&mut self)
        requires
            old(self).wf(),
        ensures
            final(self).wf(),
            final(self).counted() == old(self).counted(),
            final(self).tokens() == Seq::<LZValue>::empty(),
    {
        self.fixed_writer.clear_buffer();
    }

    /// Empties the buffer and resets the frequencies, ready for a new block.
    pub fn clear(&mut self)
        requires
            old(self).wf(),
        ensures
            final(self).wf(),
            final(self).counted() == Seq::<LZValue>::empty(),
            final(self).tokens() == Seq::<LZValue>::empty(),
    {
        self.clear_frequencies();
        self.clear_data();
    }

    /// The buffered tokens, in the order they were written.
    pub fn get_buffer(&mut self) -> (r: &[LZValue])
        ensures
            r@ == old(self).tokens(),
            *final(self) == *old(self),
    {
        self.fixed_writer.buffer.as_slice()
    }
}

impl OutputWriter for DynamicWriter {
    closed spec fn tokens(&self) -> Seq<LZValue> {
        self.fixed_writer.buffer@
    }

    open spec fn can_write_literal(&self, literal: u8) -> bool {
        &&& self.wf()
        &&& literal_length_count(self.counted(), literal as int) < u16::MAX
    }

    open spec fn can_write_length_distance(&self, length: u16, distance: u16) -> bool {
        &&& self.wf()
        &&& literal_length_count(self.counted(), length_code(length as int)) < u16::MAX
        &&& distance_count(self.counted(), distance_code(distance as int)) < u16::MAX
    }

    fn write_literal(&mut self, literal: u8)
        ensures
            final(self).wf(),
            final(self).counted() == old(self).counted().push(LZValue::Literal(literal)),
    {
        self.fixed_writer.write_literal(literal);
        let i = usize::from(literal);
        self.frequencies[i] = self.frequencies[i] + 1;
        let ghost before = self.counted@;
        self.counted = Ghost(before.push(LZValue::Literal(literal)));
        assert forall|j: int| 0 <= j < NUM_LITERALS_AND_LENGTHS implies self.frequencies@[j] as int
            == literal_length_count(self.counted@, j) by {
            lemma_counts_push(before, LZValue::Literal(literal), j);
        }
        assert forall|j: int| 0 <= j < NUM_DISTANCE_CODES implies self.distance_frequencies@[j] as int
            == distance_count(self.counted@, j) by {
            lemma_counts_push(before, LZValue::Literal(literal), j);
        }
    }

    fn write_length_distance(&mut self, length: u16, distance: u16)
        ensures
            final(self).wf(),
            final(self).counted() == old(self).counted().push(LZValue::Length(length)).push(
                LZValue::Distance(distance),
            ),
    {
        proof {
            lemma_code_ranges(length as int, distance as int);
        }
        self.fixed_writer.write_length_distance(length, distance);
        let l_code_num = get_length_code(length).unwrap();
        self.frequencies[l_code_num] = self.frequencies[l_code_num] + 1;
        let d_code_num = get_distance_code(distance).unwrap();
        let d = usize::from(d_code_num);
        self.distance_frequencies[d] = self.distance_frequencies[d] + 1;
        let ghost before = self.counted@;
        let ghost middle = before.push(LZValue::Length(length));
        self.counted = Ghost(middle.push(LZValue::Distance(distance)));
        assert forall|j: int| 0 <= j < NUM_LITERALS_AND_LENGTHS implies self.frequencies@[j] as int
            == literal_length_count(self.counted@, j) by {
            lemma_counts_push(before, LZValue::Length(length), j);
            lemma_counts_push(middle, LZValue::Distance(distance), j);
        }
        assert forall|j: int| 0 <= j < NUM_DISTANCE_CODES implies self.distance_frequencies@[j] as int
            == distance_count(self.counted@, j) by {
            lemma_counts_push(before, LZValue::Length(length), j);
            lemma_counts_push(middle, LZValue::Distance(distance), j);
        }
    }
}

} // verus!
