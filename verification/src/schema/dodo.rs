use crate::error::AppError;
use crate::utils::{
    convert_u8bytes_to_string, decode_cells, lemma_cells_round_trip, lemma_decode_cells_fits,
    pack_string_to_char_bytes, text_cells, text_fits, zero_bytes,
};
use vstd::bytes::*;
use vstd::prelude::*;
use vstd::slice::slice_subrange;

verus! {

// Field widths of the record's fixed binary layout, in bytes. Each character
// of a text field occupies one 4-byte cell.
pub const TITLE_LEN: usize = 124 * 4;

pub const TAGLINE_LEN: usize = 24 * 4;

pub const STATE_LEN: usize = 1;

pub const CREATE_TIME_LEN: usize = 8;

pub const UPDATE_TIME_LEN: usize = 8;

pub const CREATOR_LEN: usize = 32;

/// Character capacity of the title field.
pub const TITLE_CHARS: usize = 124;

/// Character capacity of the tagline field.
pub const TAGLINE_CHARS: usize = 24;

/// Total length of an encoded record.
pub const DODO_LEN: usize = TITLE_LEN + TAGLINE_LEN + STATE_LEN + CREATE_TIME_LEN
    + UPDATE_TIME_LEN + CREATOR_LEN;

/// The record: a titled, user-editable entry with a lifecycle state, two
/// timestamps, and the identity of its creator.
#[derive(Clone, Debug, Default, PartialEq)]
pub struct Dodo {
    pub title: String,
    pub tagline: String,
    pub state: u8,
    pub create_time: u64,
    pub update_time: u64,
    pub creator: [u8; 32],
}

/// The mathematical value of a record.
#[verifier::ext_equal]
pub ghost struct DodoView {
    pub title: Seq<char>,
    pub tagline: Seq<char>,
    pub state: u8,
    pub create_time: u64,
    pub update_time: u64,
    pub creator: Seq<u8>,
}

impl View for Dodo {
    type V = DodoView;

    open spec fn view(&self) -> DodoView {
        DodoView {
            title: self.title@,
            tagline: self.tagline@,
            state: self.state,
            create_time: self.create_time,
            update_time: self.update_time,
            creator: self.creator@,
        }
    }
}

/// A well-formed record: its text fits its fields and its creator identity
/// is 32 bytes.
pub open spec fn dodo_wf(d: DodoView) -> bool {
    &&& text_fits(d.title, TITLE_CHARS as nat)
    &&& text_fits(d.tagline, TAGLINE_CHARS as nat)
    &&& d.creator.len() == CREATOR_LEN
}

/// The encoded bytes of a record: the two text fields as character cells,
/// the state byte, the two timestamps little-endian, then the creator bytes.
pub open spec fn dodo_bytes(d: DodoView) -> Seq<u8>
    recommends
        dodo_wf(d),
{
    text_cells(d.title, TITLE_CHARS as nat) + text_cells(d.tagline, TAGLINE_CHARS as nat)
        + seq![d.state] + spec_u64_to_le_bytes(d.create_time) + spec_u64_to_le_bytes(
        d.update_time,
    ) + d.creator
}

/// The record stored in an encoded buffer of exactly `DODO_LEN` bytes, or
/// `None` when a text region does not decode.
pub open spec fn dodo_of_bytes(b: Seq<u8>) -> Option<DodoView>
    recommends
        b.len() == DODO_LEN,
{
    match decode_cells(b.subrange(0, TITLE_LEN as int)) {
        Some(title) => match decode_cells(
            b.subrange(TITLE_LEN as int, (TITLE_LEN + TAGLINE_LEN) as int),
        ) {
            Some(tagline) => Some(
                (DodoView {
                    title,
                    tagline,
                    state: b[(TITLE_LEN + TAGLINE_LEN) as int],
                    create_time: spec_u64_from_le_bytes(
                        b.subrange(
                            (TITLE_LEN + TAGLINE_LEN + STATE_LEN) as int,
                            (TITLE_LEN + TAGLINE_LEN + STATE_LEN + CREATE_TIME_LEN) as int,
                        ),
                    ),
                    update_time: spec_u64_from_le_bytes(
                        b.subrange(
                            (TITLE_LEN + TAGLINE_LEN + STATE_LEN + CREATE_TIME_LEN) as int,
                            (TITLE_LEN + TAGLINE_LEN + STATE_LEN + CREATE_TIME_LEN
                                + UPDATE_TIME_LEN) as int,
                        ),
                    ),
                    creator: b.subrange(
                        (TITLE_LEN + TAGLINE_LEN + STATE_LEN + CREATE_TIME_LEN
                            + UPDATE_TIME_LEN) as int,
                        DODO_LEN as int,
                    ),
                }),
            ),
            None => None,
        },
        None => None,
    }
}

impl Dodo {
    /// Decodes the record stored in the first `DODO_LEN` bytes of a buffer.
    /// Fails with `MalformedRecord` when the buffer is shorter or a text
    /// region does not decode.
    pub fn unpack_from_slice(src: &[u8]) -> (r: Result<Dodo, AppError>)
        ensures
            match r {
                Ok(d) => src@.len() >= DODO_LEN && dodo_of_bytes(
                    src@.subrange(0, DODO_LEN as int),
                ) == Some(d@) && dodo_wf(d@),
                Err(e) => e == AppError::MalformedRecord && (src@.len() < DODO_LEN
                    || dodo_of_bytes(src@.subrange(0, DODO_LEN as int)) is None),
            },
    {
        if src.len() < DODO_LEN {
            return Err(AppError::MalformedRecord);
        }
        let ghost b = src@.subrange(0, DODO_LEN as int);
        let title_bytes = slice_subrange(src, 0, TITLE_LEN);
        proof {
            assert(title_bytes@ =~= b.subrange(0, TITLE_LEN as int));
        }
        let title = match convert_u8bytes_to_string(title_bytes) {
            Some(t) => t,
            None => {
                return Err(AppError::MalformedRecord);
            },
        };
        let tagline_bytes = slice_subrange(src, TITLE_LEN, TITLE_LEN + TAGLINE_LEN);
        proof {
            assert(tagline_bytes@ =~= b.subrange(
                TITLE_LEN as int,
                (TITLE_LEN + TAGLINE_LEN) as int,
            ));
        }
        let tagline = match convert_u8bytes_to_string(tagline_bytes) {
            Some(t) => t,
            None => {
                return Err(AppError::MalformedRecord);
            },
        };
        let state = src[TITLE_LEN + TAGLINE_LEN];
        let create_bytes = slice_subrange(
            src,
            TITLE_LEN + TAGLINE_LEN + STATE_LEN,
            TITLE_LEN + TAGLINE_LEN + STATE_LEN + CREATE_TIME_LEN,
        );
        let create_time = u64_from_le_bytes(create_bytes);
        let update_bytes = slice_subrange(
            src,
            TITLE_LEN + TAGLINE_LEN + STATE_LEN + CREATE_TIME_LEN,
            TITLE_LEN + TAGLINE_LEN + STATE_LEN + CREATE_TIME_LEN + UPDATE_TIME_LEN,
        );
        let update_time = u64_from_le_bytes(update_bytes);
        let mut creator: [u8; 32] = [0; 32];
        let mut j: usize = 0;
        while j < CREATOR_LEN
            invariant
                j <= CREATOR_LEN,
                src@.len() >= DODO_LEN,
                forall|k: int|
                    0 <= k < j ==> creator@[k] == src@[(TITLE_LEN + TAGLINE_LEN + STATE_LEN
                        + CREATE_TIME_LEN + UPDATE_TIME_LEN) as int + k],
            decreases CREATOR_LEN - j,
        {
            creator[j] = src[TITLE_LEN + TAGLINE_LEN + STATE_LEN + CREATE_TIME_LEN
                + UPDATE_TIME_LEN + j];
            j = j + 1;
        }
        let d = Dodo { title, tagline, state, create_time, update_time, creator };
        proof {
            assert(create_bytes@ =~= b.subrange(
                (TITLE_LEN + TAGLINE_LEN + STATE_LEN) as int,
                (TITLE_LEN + TAGLINE_LEN + STATE_LEN + CREATE_TIME_LEN) as int,
            ));
            assert(update_bytes@ =~= b.subrange(
                (TITLE_LEN + TAGLINE_LEN + STATE_LEN + CREATE_TIME_LEN) as int,
                (TITLE_LEN + TAGLINE_LEN + STATE_LEN + CREATE_TIME_LEN + UPDATE_TIME_LEN) as int,
            ));
            assert(creator@ =~= b.subrange(
                (TITLE_LEN + TAGLINE_LEN + STATE_LEN + CREATE_TIME_LEN + UPDATE_TIME_LEN) as int,
                DODO_LEN as int,
            ));
            assert(b[(TITLE_LEN + TAGLINE_LEN) as int] == state);
            lemma_decode_cells_fits(title_bytes@);
            lemma_decode_cells_fits(tagline_bytes@);
            let x = dodo_of_bytes(b).unwrap();
            assert(x =~= d@);
            assert(dodo_of_bytes(b) == Some(d@));
        }
        Ok(d)
    }

    /// Encodes the record over the whole buffer, which must be exactly
    /// `DODO_LEN` bytes; on failure the buffer is untouched. Text that does
    /// not fit its field is rejected, never truncated.
    pub fn pack_into_slice(&self, dst: &mut Vec<u8>) -> (r: Result<(), AppError>)
        ensures
            match r {
                Ok(()) => old(dst)@.len() == DODO_LEN && dodo_wf(self@) && final(dst)@
                    == dodo_bytes(self@),
                Err(e) => final(dst)@ == old(dst)@ && (old(dst)@.len() != DODO_LEN || !dodo_wf(
                    self@,
                )) && e == (if old(dst)@.len() != DODO_LEN {
                    AppError::MalformedRecord
                } else {
                    AppError::InvalidInstruction
                }),
            },
    {
        if dst.len() != DODO_LEN {
            return Err(AppError::MalformedRecord);
        }
        let mut title_cells = match pack_string_to_char_bytes(self.title.as_str(), TITLE_CHARS) {
            Some(v) => v,
            None => {
                return Err(AppError::InvalidInstruction);
            },
        };
        let mut tagline_cells = match pack_string_to_char_bytes(
            self.tagline.as_str(),
            TAGLINE_CHARS,
        ) {
            Some(v) => v,
            None => {
                return Err(AppError::InvalidInstruction);
            },
        };
        let mut out: Vec<u8> = Vec::new();
        out.append(&mut title_cells);
        out.append(&mut tagline_cells);
        out.push(self.state);
        let mut create_bytes = u64_to_le_bytes(self.create_time);
        out.append(&mut create_bytes);
        let mut update_bytes = u64_to_le_bytes(self.update_time);
        out.append(&mut update_bytes);
        let ghost base = out@;
        let mut j: usize = 0;
        while j < CREATOR_LEN
            invariant
                j <= CREATOR_LEN,
                out@ == base + self.creator@.subrange(0, j as int),
            decreases CREATOR_LEN - j,
        {
            out.push(self.creator[j]);
            proof {
                assert(base + self.creator@.subrange(0, j as int + 1) =~= (base
                    + self.creator@.subrange(0, j as int)).push(self.creator@[j as int]));
            }
            j = j + 1;
        }
        proof {
            assert(self.creator@.subrange(0, CREATOR_LEN as int) =~= self.creator@);
            assert(out@ =~= dodo_bytes(self@));
        }
        *dst = out;
        Ok(())
    }
}

/// Law: decoding an encoded record yields the record back, for every
/// well-formed record.
pub proof fn lemma_dodo_round_trip(d: DodoView)
    requires
        dodo_wf(d),
    ensures
        dodo_bytes(d).len() == DODO_LEN,
        dodo_of_bytes(dodo_bytes(d)) == Some(d),
{
    let b = dodo_bytes(d);
    lemma_cells_round_trip(d.title, TITLE_CHARS as nat);
    lemma_cells_round_trip(d.tagline, TAGLINE_CHARS as nat);
    lemma_auto_spec_u64_to_from_le_bytes();
    assert(b.subrange(0, TITLE_LEN as int) =~= text_cells(d.title, TITLE_CHARS as nat));
    assert(b.subrange(TITLE_LEN as int, (TITLE_LEN + TAGLINE_LEN) as int) =~= text_cells(
        d.tagline,
        TAGLINE_CHARS as nat,
    ));
    assert(b[(TITLE_LEN + TAGLINE_LEN) as int] == d.state);
    assert(b.subrange(
        (TITLE_LEN + TAGLINE_LEN + STATE_LEN) as int,
        (TITLE_LEN + TAGLINE_LEN + STATE_LEN + CREATE_TIME_LEN) as int,
    ) =~= spec_u64_to_le_bytes(d.create_time));
    assert(b.subrange(
        (TITLE_LEN + TAGLINE_LEN + STATE_LEN + CREATE_TIME_LEN) as int,
        (TITLE_LEN + TAGLINE_LEN + STATE_LEN + CREATE_TIME_LEN + UPDATE_TIME_LEN) as int,
    ) =~= spec_u64_to_le_bytes(d.update_time));
    assert(b.subrange(
        (TITLE_LEN + TAGLINE_LEN + STATE_LEN + CREATE_TIME_LEN + UPDATE_TIME_LEN) as int,
        DODO_LEN as int,
    ) =~= d.creator);
    let x = dodo_of_bytes(b).unwrap();
    assert(x =~= d);
    assert(dodo_of_bytes(b) == Some(d));
}

/// Law: a record whose title and tagline are both empty encodes its whole
/// text region -- the first `TITLE_LEN + TAGLINE_LEN` bytes -- as zero bytes.
pub proof fn lemma_empty_text_encodes_zero(d: DodoView)
    requires
        dodo_wf(d),
        d.title.len() == 0,
        d.tagline.len() == 0,
    ensures
        forall|i: int|
            0 <= i < TITLE_LEN + TAGLINE_LEN ==> #[trigger] dodo_bytes(d)[i] == 0u8,
{
    assert(text_cells(d.title, TITLE_CHARS as nat) =~= zero_bytes((4 * TITLE_CHARS) as nat));
    assert(text_cells(d.tagline, TAGLINE_CHARS as nat) =~= zero_bytes(
        (4 * TAGLINE_CHARS) as nat,
    ));
}

} // verus!
