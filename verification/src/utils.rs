use vstd::prelude::*;
use vstd::std_specs::iter::IteratorSpec;
use vstd::utf8::*;

verus! {

broadcast use vstd::string::axiom_spec_iter, vstd::string::next_postcondition;

// ---------------------------------------------------------------------------
// The character-cell encoding.
//
// A text field of capacity `cap` occupies `4 * cap` bytes: one 4-byte cell
// per character. A character's UTF-8 bytes (1 to 4 of them) sit left-aligned
// in its cell and the tail of the cell is zero. Cells after the last
// character are entirely zero. Decoding reads each cell's character width
// from the position of the last non-zero byte, so a character all of whose
// UTF-8 bytes are zero -- only NUL -- cannot be stored; the encoder rejects
// it rather than write a cell that would read back as padding.
// ---------------------------------------------------------------------------

/// A run of `n` zero bytes.
pub open spec fn zero_bytes(n: nat) -> Seq<u8> {
    Seq::new(n, |i: int| 0u8)
}

/// The 4-byte cell of one character: its UTF-8 bytes, left-aligned, with the
/// rest of the cell zero.
pub open spec fn cell_of(c: char) -> Seq<u8> {
    encode_scalar(c as u32) + zero_bytes((4 - encode_scalar(c as u32).len()) as nat)
}

/// The cells of the characters of `s`, concatenated, without padding cells.
pub open spec fn cells_of(s: Seq<char>) -> Seq<u8>
    decreases s.len(),
{
    if s.len() == 0 {
        Seq::empty()
    } else {
        cell_of(s[0]) + cells_of(s.drop_first())
    }
}

/// Whether text fits a field of `cap` cells: at most `cap` characters, none
/// of them NUL.
pub open spec fn text_fits(s: Seq<char>, cap: nat) -> bool {
    &&& s.len() <= cap
    &&& forall|i: int| 0 <= i < s.len() ==> s[i] != '\0'
}

/// A full field region of `cap` cells holding the text `s`: the cells of `s`
/// followed by all-zero padding.
pub open spec fn text_cells(s: Seq<char>, cap: nat) -> Seq<u8>
    recommends
        text_fits(s, cap),
{
    cells_of(s) + zero_bytes((4 * (cap - s.len())) as nat)
}

/// True when all four bytes of a cell are zero.
pub open spec fn cell_is_zero(cell: Seq<u8>) -> bool
    recommends
        cell.len() == 4,
{
    cell[0] == 0 && cell[1] == 0 && cell[2] == 0 && cell[3] == 0
}

/// How many leading bytes of a non-zero cell belong to its character: the
/// bytes up to and including the last non-zero byte.
pub open spec fn cell_width(cell: Seq<u8>) -> int
    recommends
        cell.len() == 4,
{
    if cell[3] != 0 {
        4
    } else if cell[2] != 0 {
        3
    } else if cell[1] != 0 {
        2
    } else {
        1
    }
}

/// The character stored in a non-zero cell, when its leading bytes are the
/// UTF-8 encoding of exactly one character.
pub open spec fn cell_char(cell: Seq<u8>) -> Option<char>
    recommends
        cell.len() == 4,
        !cell_is_zero(cell),
{
    let prefix = cell.subrange(0, cell_width(cell));
    if valid_utf8(prefix) && decode_utf8(prefix).len() == 1 {
        Some(decode_utf8(prefix)[0])
    } else {
        None
    }
}

/// The text stored in a region of character cells: one character per cell, in
/// order, ending at the first all-zero cell (or at the end of the region).
/// `None` when the region is not whole cells or some cell holds no single
/// character.
pub open spec fn decode_cells(bytes: Seq<u8>) -> Option<Seq<char>>
    decreases bytes.len(),
{
    if bytes.len() % 4 != 0 {
        None
    } else if bytes.len() < 4 {
        Some(Seq::empty())
    } else if cell_is_zero(bytes.subrange(0, 4)) {
        Some(Seq::empty())
    } else {
        match cell_char(bytes.subrange(0, 4)) {
            Some(c) => match decode_cells(bytes.subrange(4, bytes.len() as int)) {
                Some(s) => Some(seq![c] + s),
                None => None,
            },
            None => None,
        }
    }
}

// ---------------------------------------------------------------------------
// Trusted interface to std.
// ---------------------------------------------------------------------------

/// Relies on char::from_u32: it returns `Some` exactly for the values below
/// 0x110000 that are not surrogates, and the returned character casts back to
/// the given value.
pub assume_specification[ char::from_u32 ](v: u32) -> (r: Option<char>)
    ensures
        r is Some <==> is_scalar(v),
        r matches Some(c) ==> c as u32 == v,
;

/// Relies on String::push: it appends the given character to the string.
pub assume_specification[ String::push ](s: &mut String, c: char)
    ensures
        final(s)@ == old(s)@.push(c),
;

// ---------------------------------------------------------------------------
// Executable codec.
// ---------------------------------------------------------------------------

/// Appends the 4-byte cell of one character to a byte vector: the UTF-8 bytes
/// of the character, then zero padding to fill the cell.
fn push_char_cell(v: &mut Vec<u8>, c: char)
    ensures
        final(v)@ == old(v)@ + cell_of(c),
{
    let n = c as u32;
    proof {
        char_is_scalar(c);
    }
    if n < 0x80 {
        v.push((n & 0x7F) as u8);
        v.push(0);
        v.push(0);
        v.push(0);
    } else if n < 0x800 {
        v.push(0xC0 | ((n >> 6) & 0x1F) as u8);
        v.push(0x80 | (n & 0x3F) as u8);
        v.push(0);
        v.push(0);
    } else if n < 0x10000 {
        v.push(0xE0 | ((n >> 12) & 0x0F) as u8);
        v.push(0x80 | ((n >> 6) & 0x3F) as u8);
        v.push(0x80 | (n & 0x3F) as u8);
        v.push(0);
    } else {
        v.push(0xF0 | ((n >> 18) & 0x7) as u8);
        v.push(0x80 | ((n >> 12) & 0x3F) as u8);
        v.push(0x80 | ((n >> 6) & 0x3F) as u8);
        v.push(0x80 | (n & 0x3F) as u8);
    }
    proof {
        assert(v@ =~= old(v)@ + cell_of(c));
    }
}

/// A byte sequence is the UTF-8 encoding of exactly one character when and
/// only when it begins with a well-formed scalar encoding that spans the
/// whole sequence; the character is then the decoded scalar.
proof fn lemma_single_scalar(prefix: Seq<u8>)
    requires
        1 <= prefix.len() <= 4,
    ensures
        (valid_utf8(prefix) && decode_utf8(prefix).len() == 1) <==> (valid_first_scalar(prefix)
            && length_of_first_scalar(prefix) == prefix.len()),
        (valid_utf8(prefix) && decode_utf8(prefix).len() == 1) ==> decode_utf8(prefix)[0]
            == decode_first_scalar(prefix) as char,
{
    if valid_first_scalar(prefix) && length_of_first_scalar(prefix) == prefix.len() {
        let pop = pop_first_scalar(prefix);
        assert(pop =~= Seq::<u8>::empty());
        assert(valid_utf8(Seq::<u8>::empty()));
        assert(valid_utf8(prefix));
        assert(decode_utf8(prefix) == seq![decode_first_scalar(prefix) as char]
            + decode_utf8(pop));
        assert(decode_utf8(pop) =~= Seq::<char>::empty());
        assert(decode_utf8(prefix) =~= seq![decode_first_scalar(prefix) as char]);
    }
    if valid_utf8(prefix) && decode_utf8(prefix).len() == 1 {
        assert(valid_first_scalar(prefix));
        let pop = pop_first_scalar(prefix);
        assert(decode_utf8(prefix) == seq![decode_first_scalar(prefix) as char]
            + decode_utf8(pop));
        assert(decode_utf8(pop).len() == 0);
        if pop.len() != 0 {
            assert(decode_utf8(pop).len() >= 1);
        }
        assert(length_of_first_scalar(prefix) == prefix.len());
    }
}

/// Decodes one non-zero cell, given as its four bytes: reads the character's
/// byte width from the position of the last non-zero byte and accepts the
/// leading bytes only when they are the UTF-8 encoding of exactly one
/// character.
fn decode_cell(b0: u8, b1: u8, b2: u8, b3: u8) -> (r: Option<char>)
    requires
        !(b0 == 0 && b1 == 0 && b2 == 0 && b3 == 0),
    ensures
        r == cell_char(seq![b0, b1, b2, b3]),
{
    let ghost cell: Seq<u8> = seq![b0, b1, b2, b3];
    if b3 != 0 {
        let ghost prefix = cell.subrange(0, 4);
        proof {
            assert(prefix =~= cell);
            lemma_single_scalar(prefix);
        }
        if 0xF0 <= b0 && b0 <= 0xF7 && 0x80 <= b1 && b1 <= 0xBF && 0x80 <= b2 && b2 <= 0xBF
            && 0x80 <= b3 && b3 <= 0xBF {
            let cp: u32 = (((b0 & 0x07) as u32) << 18) | (((b1 & 0x3F) as u32) << 12) | (((b2
                & 0x3F) as u32) << 6) | ((b3 & 0x3F) as u32);
            if 0x10000 <= cp && cp <= 0x10FFFF {
                let r = char::from_u32(cp);
                proof {
                    assert(is_scalar(cp));
                    let c = r.unwrap();
                    char_u32_cast(c, cp);
                    assert(cell_char(cell) == Some(c));
                }
                r
            } else {
                proof {
                    assert(cell_char(cell) is None);
                }
                None
            }
        } else {
            proof {
                assert(cell_char(cell) is None);
            }
            None
        }
    } else if b2 != 0 {
        let ghost prefix = cell.subrange(0, 3);
        proof {
            assert(prefix =~= seq![b0, b1, b2]);
            lemma_single_scalar(prefix);
        }
        if 0xE0 <= b0 && b0 <= 0xEF && 0x80 <= b1 && b1 <= 0xBF && 0x80 <= b2 && b2 <= 0xBF {
            let cp: u32 = (((b0 & 0x0F) as u32) << 12) | (((b1 & 0x3F) as u32) << 6) | ((b2
                & 0x3F) as u32);
            proof {
                assert(cp <= 0xFFFF) by (bit_vector)
                    requires
                        cp == (((b0 & 0x0F) as u32) << 12) | (((b1 & 0x3F) as u32) << 6) | ((b2
                            & 0x3F) as u32),
                ;
            }
            if 0x800 <= cp && !(0xD800 <= cp && cp <= 0xDFFF) {
                let r = char::from_u32(cp);
                proof {
                    assert(is_scalar(cp));
                    let c = r.unwrap();
                    char_u32_cast(c, cp);
                    assert(cell_char(cell) == Some(c));
                }
                r
            } else {
                proof {
                    assert(cell_char(cell) is None);
                }
                None
            }
        } else {
            proof {
                assert(cell_char(cell) is None);
            }
            None
        }
    } else if b1 != 0 {
        let ghost prefix = cell.subrange(0, 2);
        proof {
            assert(prefix =~= seq![b0, b1]);
            lemma_single_scalar(prefix);
        }
        if 0xC0 <= b0 && b0 <= 0xDF && 0x80 <= b1 && b1 <= 0xBF {
            let cp: u32 = (((b0 & 0x1F) as u32) << 6) | ((b1 & 0x3F) as u32);
            proof {
                assert(cp <= 0x7FF) by (bit_vector)
                    requires
                        cp == (((b0 & 0x1F) as u32) << 6) | ((b1 & 0x3F) as u32),
                ;
            }
            if 0x80 <= cp {
                let r = char::from_u32(cp);
                proof {
                    assert(is_scalar(cp));
                    let c = r.unwrap();
                    char_u32_cast(c, cp);
                    assert(cell_char(cell) == Some(c));
                }
                r
            } else {
                proof {
                    assert(cell_char(cell) is None);
                }
                None
            }
        } else {
            proof {
                assert(cell_char(cell) is None);
            }
            None
        }
    } else {
        let ghost prefix = cell.subrange(0, 1);
        proof {
            assert(prefix =~= seq![b0]);
            lemma_single_scalar(prefix);
        }
        if b0 <= 0x7F {
            let cp: u32 = (b0 & 0x7F) as u32;
            let r = char::from_u32(cp);
            proof {
                assert(is_scalar(cp));
                let c = r.unwrap();
                char_u32_cast(c, cp);
                assert(cell_char(cell) == Some(c));
            }
            r
        } else {
            proof {
                assert(cell_char(cell) is None);
            }
            None
        }
    }
}

/// The cells of `s` with one more character appended are the cells of `s`
/// followed by that character's cell.
proof fn lemma_cells_of_push(s: Seq<char>, c: char)
    ensures
        cells_of(s.push(c)) == cells_of(s) + cell_of(c),
    decreases s.len(),
{
    if s.len() == 0 {
        assert(s.push(c) =~= seq![c]);
        assert(cells_of(seq![c]) == cell_of(c) + cells_of(seq![c].drop_first()));
        assert(seq![c].drop_first() =~= Seq::<char>::empty());
        assert(cells_of(s.push(c)) =~= cells_of(s) + cell_of(c));
    } else {
        assert(s.push(c).drop_first() =~= s.drop_first().push(c));
        lemma_cells_of_push(s.drop_first(), c);
        assert(cells_of(s.push(c)) == cell_of(s.push(c)[0]) + cells_of(s.push(c).drop_first()));
        assert(s.push(c)[0] == s[0]);
        assert(cells_of(s.push(c)) =~= cells_of(s) + cell_of(c));
    }
}

/// Packs text into a field of `cap` 4-byte character cells, one character per
/// cell, padding the rest of the field with zero bytes; fails (`None`) when
/// the text has more than `cap` characters or contains the NUL character.
pub fn pack_string_to_char_bytes(s: &str, cap: usize) -> (r: Option<Vec<u8>>)
    requires
        cap <= usize::MAX / 4,
    ensures
        match r {
            Some(v) => text_fits(s@, cap as nat) && v@ == text_cells(s@, cap as nat) && v@.len()
                == 4 * cap,
            None => !text_fits(s@, cap as nat),
        },
{
    let mut v: Vec<u8> = Vec::new();
    let mut count: usize = 0;
    let mut it = s.chars();
    loop
        invariant
            count <= cap,
            cap <= usize::MAX / 4,
            count <= s@.len(),
            it.remaining() =~= s@.skip(count as int),
            v@ == cells_of(s@.take(count as int)),
            v@.len() == 4 * count,
            forall|i: int| 0 <= i < count ==> s@[i] != '\0',
            it.decrease() is Some,
        ensures
            count <= cap,
            count == s@.len(),
            v@ == cells_of(s@.take(count as int)),
            v@.len() == 4 * count,
            forall|i: int| 0 <= i < count ==> s@[i] != '\0',
        decreases it.decrease().unwrap(),
    {
        let ghost prev = it.remaining();
        match it.next() {
            None => {
                proof {
                    assert(prev.len() == 0);
                    assert(s@.len() == count);
                }
                break ;
            },
            Some(c) => {
                proof {
                    assert(c == s@[count as int]);
                    assert(s@.len() > count);
                }
                if count >= cap {
                    return None;
                }
                if c == '\0' {
                    return None;
                }
                let ghost taken = s@.take(count as int);
                push_char_cell(&mut v, c);
                count = count + 1;
                proof {
                    lemma_cells_of_push(taken, c);
                    assert(s@.take(count as int) =~= taken.push(c));
                    assert(it.remaining() =~= s@.skip(count as int));
                }
            },
        }
    }
    proof {
        assert(s@.take(count as int) =~= s@);
        assert(text_fits(s@, cap as nat));
    }
    let total: usize = 4 * cap;
    let ghost chars_len = count as int;
    while v.len() < total
        invariant
            total == 4 * cap,
            chars_len == s@.len(),
            s@.len() <= cap,
            4 * s@.len() <= v@.len() <= total,
            v@ == cells_of(s@) + zero_bytes((v@.len() - 4 * s@.len()) as nat),
        decreases total - v.len(),
    {
        v.push(0);
        proof {
            assert(v@ =~= cells_of(s@) + zero_bytes((v@.len() - 4 * s@.len()) as nat));
        }
    }
    proof {
        assert(v@ == text_cells(s@, cap as nat));
    }
    Some(v)
}

/// Decodes a region of 4-byte character cells back into text, ending at the
/// first all-zero cell; `None` when the region is not whole cells or a cell
/// does not hold exactly one character.
pub fn convert_u8bytes_to_string(bytes: &[u8]) -> (r: Option<String>)
    ensures
        match r {
            Some(s) => decode_cells(bytes@) == Some(s@),
            None => decode_cells(bytes@) is None,
        },
{
    let n = bytes.len();
    if n % 4 != 0 {
        return None;
    }
    let mut s = String::new();
    let mut i: usize = 0;
    proof {
        assert(bytes@.skip(0) =~= bytes@);
        match decode_cells(bytes@) {
            Some(t) => {
                assert(s@ + t =~= t);
            },
            None => {},
        }
    }
    while i < n
        invariant
            i <= n,
            i % 4 == 0,
            n % 4 == 0,
            n == bytes@.len(),
            decode_cells(bytes@) == match decode_cells(bytes@.skip(i as int)) {
                Some(t) => Some(s@ + t),
                None => None::<Seq<char>>,
            },
        decreases n - i,
    {
        proof {
            assert((n - i) % 4 == 0);
            assert(n - i >= 4);
            assert(bytes@.skip(i as int).len() == n - i);
            assert(bytes@.skip(i as int).subrange(0, 4) =~= seq![
                bytes@[i as int],
                bytes@[i as int + 1],
                bytes@[i as int + 2],
                bytes@[i as int + 3],
            ]);
        }
        let b0 = bytes[i];
        let b1 = bytes[i + 1];
        let b2 = bytes[i + 2];
        let b3 = bytes[i + 3];
        let ghost rest = bytes@.skip(i as int);
        if b0 == 0 && b1 == 0 && b2 == 0 && b3 == 0 {
            proof {
                assert(decode_cells(rest) == Some(Seq::<char>::empty()));
                assert(s@ + Seq::<char>::empty() =~= s@);
            }
            return Some(s);
        }
        proof {
            assert(rest.subrange(4, rest.len() as int) =~= bytes@.skip(i as int + 4));
        }
        match decode_cell(b0, b1, b2, b3) {
            Some(c) => {
                let ghost s0 = s@;
                s.push(c);
                proof {
                    match decode_cells(bytes@.skip(i as int + 4)) {
                        Some(t) => {
                            assert(decode_cells(rest) == Some(seq![c] + t));
                            assert(s0 + (seq![c] + t) =~= s0.push(c) + t);
                        },
                        None => {
                            assert(decode_cells(rest) is None);
                        },
                    }
                }
            },
            None => {
                proof {
                    assert(decode_cells(rest) is None);
                }
                return None;
            },
        }
        i = i + 4;
    }
    proof {
        assert(bytes@.skip(i as int) =~= Seq::<u8>::empty());
        assert(decode_cells(Seq::<u8>::empty()) == Some(Seq::<char>::empty()));
        assert(s@ + Seq::<char>::empty() =~= s@);
    }
    Some(s)
}

// ---------------------------------------------------------------------------
// The codec laws.
// ---------------------------------------------------------------------------

/// Every UTF-8 byte of a character other than NUL is non-zero, which is what
/// lets the decoder read a character's width off the zero padding of its cell.
proof fn lemma_encode_scalar_nonzero(c: char)
    requires
        c != '\0',
    ensures
        forall|j: int|
            0 <= j < encode_scalar(c as u32).len() ==> #[trigger] encode_scalar(c as u32)[j]
                != 0,
{
    char_is_scalar(c);
    let n = c as u32;
    if n == 0 {
        char_u32_cast(c, 0);
        char_u32_cast('\0', 0);
        assert(false);
    }
    if has_width_1_encoding(n) {
        assert((n & 0x7F) != 0) by (bit_vector)
            requires
                n != 0 && n <= 0x7F,
        ;
    } else if has_width_2_encoding(n) {
        assert(0xC0u8 | ((n >> 6) & 0x1F) as u8 != 0) by (bit_vector);
        assert(0x80u8 | (n & 0x3F) as u8 != 0) by (bit_vector);
    } else if has_width_3_encoding(n) {
        assert(0xE0u8 | ((n >> 12) & 0x0F) as u8 != 0) by (bit_vector);
        assert(0x80u8 | ((n >> 6) & 0x3F) as u8 != 0) by (bit_vector);
        assert(0x80u8 | (n & 0x3F) as u8 != 0) by (bit_vector);
    } else {
        assert(0xF0u8 | ((n >> 18) & 0x7) as u8 != 0) by (bit_vector);
        assert(0x80u8 | ((n >> 12) & 0x3F) as u8 != 0) by (bit_vector);
        assert(0x80u8 | ((n >> 6) & 0x3F) as u8 != 0) by (bit_vector);
        assert(0x80u8 | (n & 0x3F) as u8 != 0) by (bit_vector);
    }
}

/// The cells of `s` occupy exactly four bytes per character.
proof fn lemma_cells_of_len(s: Seq<char>)
    ensures
        cells_of(s).len() == 4 * s.len(),
    decreases s.len(),
{
    if s.len() != 0 {
        lemma_cells_of_len(s.drop_first());
    }
}

/// A non-zero cell holding one character's UTF-8 bytes decodes back to that
/// character.
proof fn lemma_cell_of_char(c: char)
    requires
        c != '\0',
    ensures
        cell_of(c).len() == 4,
        !cell_is_zero(cell_of(c)),
        cell_char(cell_of(c)) == Some(c),
{
    char_is_scalar(c);
    lemma_encode_scalar_nonzero(c);
    let e = encode_scalar(c as u32);
    let w = e.len() as int;
    let cell = cell_of(c);
    assert(forall|j: int| 0 <= j < w ==> cell[j] == e[j]);
    assert(forall|j: int| w <= j < 4 ==> cell[j] == 0);
    assert(cell_width(cell) == w);
    let prefix = cell.subrange(0, w);
    assert(prefix =~= e);
    assert(encode_utf8(seq![c]) == encode_scalar(seq![c][0] as u32) + encode_utf8(
        seq![c].drop_first(),
    ));
    assert(seq![c].drop_first() =~= Seq::<char>::empty());
    assert(encode_utf8(Seq::<char>::empty()) =~= Seq::<u8>::empty());
    assert(encode_utf8(seq![c]) =~= e);
    encode_utf8_valid_utf8(seq![c]);
    encode_utf8_decode_utf8(seq![c]);
    assert(valid_utf8(prefix));
    assert(decode_utf8(prefix) == seq![c]);
    assert(cell_char(cell) == Some(c));
}

/// Law: decoding an encoded text field yields the text back, for every text
/// that fits the field.
pub proof fn lemma_cells_round_trip(s: Seq<char>, cap: nat)
    requires
        text_fits(s, cap),
    ensures
        text_cells(s, cap).len() == 4 * cap,
        decode_cells(text_cells(s, cap)) == Some(s),
    decreases s.len(),
{
    let b = text_cells(s, cap);
    lemma_cells_of_len(s);
    assert(b.len() == 4 * cap);
    if s.len() == 0 {
        assert(b =~= zero_bytes(4 * cap));
        if cap != 0 {
            assert(b.len() % 4 == 0);
            assert(cell_is_zero(b.subrange(0, 4)));
        }
        assert(decode_cells(b) == Some(Seq::<char>::empty()));
        assert(s =~= Seq::<char>::empty());
    } else {
        let c = s[0];
        lemma_cell_of_char(c);
        assert(b.subrange(0, 4) =~= cell_of(c));
        assert(b.len() % 4 == 0);
        let rest = s.drop_first();
        lemma_cells_round_trip(rest, (cap - 1) as nat);
        assert(b.subrange(4, b.len() as int) =~= text_cells(rest, (cap - 1) as nat));
        assert(decode_cells(b) == Some(seq![c] + rest));
        assert(seq![c] + rest =~= s);
    }
}

/// Law: decoded text always fits the field it was read from: at most one
/// character per cell, and never the NUL character.
pub proof fn lemma_decode_cells_fits(bytes: Seq<u8>)
    requires
        decode_cells(bytes) is Some,
    ensures
        4 * decode_cells(bytes).unwrap().len() <= bytes.len(),
        forall|i: int|
            0 <= i < decode_cells(bytes).unwrap().len() ==> decode_cells(bytes).unwrap()[i]
                != '\0',
    decreases bytes.len(),
{
    if bytes.len() % 4 != 0 || bytes.len() < 4 || cell_is_zero(bytes.subrange(0, 4)) {
    } else {
        let cell = bytes.subrange(0, 4);
        let c = cell_char(cell).unwrap();
        let w = cell_width(cell);
        let prefix = cell.subrange(0, w);
        assert(valid_utf8(prefix) && decode_utf8(prefix).len() == 1 && decode_utf8(prefix)[0]
            == c);
        if c == '\0' {
            decode_utf8_encode_utf8(prefix);
            assert(decode_utf8(prefix) =~= seq![c]);
            assert(encode_utf8(seq![c]) == encode_scalar(seq![c][0] as u32) + encode_utf8(
                seq![c].drop_first(),
            ));
            assert(seq![c].drop_first() =~= Seq::<char>::empty());
            char_u32_cast('\0', 0);
            assert(c as u32 == 0);
            assert((0u32 & 0x7F) as u8 == 0) by (bit_vector);
            assert(encode_scalar(0) =~= seq![0u8]);
            assert(prefix =~= seq![0u8]);
            assert(cell[0] == 0 && w == 1);
            assert(cell_is_zero(cell));
            assert(false);
        }
        let tail = bytes.subrange(4, bytes.len() as int);
        lemma_decode_cells_fits(tail);
        let t = decode_cells(tail).unwrap();
        assert(decode_cells(bytes).unwrap() == seq![c] + t);
    }
}

} // verus!
