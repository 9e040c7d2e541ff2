use crate::error::AppError;
use crate::schema::dodo::{CREATE_TIME_LEN, STATE_LEN, TAGLINE_LEN, TITLE_LEN, UPDATE_TIME_LEN};
use crate::utils::{convert_u8bytes_to_string, decode_cells};
use vstd::bytes::*;
use vstd::prelude::*;
use vstd::slice::slice_subrange;

verus! {

/// Payload length that a create command requires: a full record without the
/// creator field, which is never taken from the wire.
pub const CREATE_PAYLOAD_LEN: usize = TITLE_LEN + TAGLINE_LEN + STATE_LEN + CREATE_TIME_LEN
    + UPDATE_TIME_LEN;

/// Payload length that an update command requires: a state byte and an
/// update timestamp.
pub const UPDATE_PAYLOAD_LEN: usize = STATE_LEN + UPDATE_TIME_LEN;

/// One decoded command: create a record, update its state and update time,
/// or remove it.
#[derive(Clone, Debug, PartialEq)]
pub enum AppInstruction {
    CreateDodo { title: String, tagline: String, state: u8, create_time: u64, update_time: u64 },
    UpdateDodo { state: u8, update_time: u64 },
    RemoveDodo,
}

/// The mathematical value of a decoded command.
#[verifier::ext_equal]
pub ghost enum AppInstructionView {
    CreateDodo {
        title: Seq<char>,
        tagline: Seq<char>,
        state: u8,
        create_time: u64,
        update_time: u64,
    },
    UpdateDodo { state: u8, update_time: u64 },
    RemoveDodo,
}

impl View for AppInstruction {
    type V = AppInstructionView;

    open spec fn view(&self) -> AppInstructionView {
        match self {
            AppInstruction::CreateDodo { title, tagline, state, create_time, update_time } => (
            AppInstructionView::CreateDodo {
                title: title@,
                tagline: tagline@,
                state: *state,
                create_time: *create_time,
                update_time: *update_time,
            }),
            AppInstruction::UpdateDodo { state, update_time } => (AppInstructionView::UpdateDodo {
                state: *state,
                update_time: *update_time,
            }),
            AppInstruction::RemoveDodo => AppInstructionView::RemoveDodo,
        }
    }
}

/// The command encoded in an instruction buffer: byte 0 is the tag (0 create,
/// 1 update, 2 remove) and the rest is the tag's payload. `None` when the tag
/// is unknown, the payload is shorter than the tag requires, or a text region
/// of a create payload does not decode. Bytes past the required payload are
/// ignored.
pub open spec fn unpack_spec(b: Seq<u8>) -> Option<AppInstructionView> {
    if b.len() < 1 {
        None
    } else if b[0] == 0 {
        if b.len() < 1 + CREATE_PAYLOAD_LEN {
            None
        } else {
            match decode_cells(b.subrange(1, 1 + TITLE_LEN as int)) {
                Some(title) => match decode_cells(
                    b.subrange(1 + TITLE_LEN as int, 1 + (TITLE_LEN + TAGLINE_LEN) as int),
                ) {
                    Some(tagline) => Some(
                        (AppInstructionView::CreateDodo {
                            title,
                            tagline,
                            state: b[1 + (TITLE_LEN + TAGLINE_LEN) as int],
                            create_time: spec_u64_from_le_bytes(
                                b.subrange(
                                    1 + (TITLE_LEN + TAGLINE_LEN + STATE_LEN) as int,
                                    1 + (TITLE_LEN + TAGLINE_LEN + STATE_LEN
                                        + CREATE_TIME_LEN) as int,
                                ),
                            ),
                            update_time: spec_u64_from_le_bytes(
                                b.subrange(
                                    1 + (TITLE_LEN + TAGLINE_LEN + STATE_LEN
                                        + CREATE_TIME_LEN) as int,
                                    1 + (TITLE_LEN + TAGLINE_LEN + STATE_LEN + CREATE_TIME_LEN
                                        + UPDATE_TIME_LEN) as int,
                                ),
                            ),
                        }),
                    ),
                    None => None,
                },
                None => None,
            }
        }
    } else if b[0] == 1 {
        if b.len() < 1 + UPDATE_PAYLOAD_LEN {
            None
        } else {
            Some(
                (AppInstructionView::UpdateDodo {
                    state: b[1],
                    update_time: spec_u64_from_le_bytes(
                        b.subrange(1 + STATE_LEN as int, 1 + UPDATE_PAYLOAD_LEN as int),
                    ),
                }),
            )
        }
    } else if b[0] == 2 {
        Some(AppInstructionView::RemoveDodo)
    } else {
        None
    }
}

impl AppInstruction {
    /// Decodes an instruction buffer into the command it carries. Fails with
    /// `InvalidInstruction` exactly when the buffer carries none.
    pub fn unpack(instruction: &[u8]) -> (r: Result<AppInstruction, AppError>)
        ensures
            match r {
                Ok(i) => unpack_spec(instruction@) == Some(i@),
                Err(e) => e == AppError::InvalidInstruction && unpack_spec(instruction@) is None,
            },
    {
        if instruction.len() < 1 {
            return Err(AppError::InvalidInstruction);
        }
        let tag = instruction[0];
        if tag == 0 {
            if instruction.len() < 1 + CREATE_PAYLOAD_LEN {
                return Err(AppError::InvalidInstruction);
            }
            let title_bytes = slice_subrange(instruction, 1, 1 + TITLE_LEN);
            let title = match convert_u8bytes_to_string(title_bytes) {
                Some(t) => t,
                None => {
                    return Err(AppError::InvalidInstruction);
                },
            };
            let tagline_bytes = slice_subrange(
                instruction,
                1 + TITLE_LEN,
                1 + TITLE_LEN + TAGLINE_LEN,
            );
            let tagline = match convert_u8bytes_to_string(tagline_bytes) {
                Some(t) => t,
                None => {
                    return Err(AppError::InvalidInstruction);
                },
            };
            let state = instruction[1 + TITLE_LEN + TAGLINE_LEN];
            let create_bytes = slice_subrange(
                instruction,
                1 + TITLE_LEN + TAGLINE_LEN + STATE_LEN,
                1 + TITLE_LEN + TAGLINE_LEN + STATE_LEN + CREATE_TIME_LEN,
            );
            let create_time = u64_from_le_bytes(create_bytes);
            let update_bytes = slice_subrange(
                instruction,
                1 + TITLE_LEN + TAGLINE_LEN + STATE_LEN + CREATE_TIME_LEN,
                1 + TITLE_LEN + TAGLINE_LEN + STATE_LEN + CREATE_TIME_LEN + UPDATE_TIME_LEN,
            );
            let update_time = u64_from_le_bytes(update_bytes);
            let i = AppInstruction::CreateDodo { title, tagline, state, create_time, update_time };
            proof {
                let x = unpack_spec(instruction@).unwrap();
                assert(x =~= i@);
            }
            Ok(i)
        } else if tag == 1 {
            if instruction.len() < 1 + UPDATE_PAYLOAD_LEN {
                return Err(AppError::InvalidInstruction);
            }
            let state = instruction[1];
            let update_bytes = slice_subrange(instruction, 1 + STATE_LEN, 1 + UPDATE_PAYLOAD_LEN);
            let update_time = u64_from_le_bytes(update_bytes);
            let i = AppInstruction::UpdateDodo { state, update_time };
            proof {
                let x = unpack_spec(instruction@).unwrap();
                assert(x =~= i@);
            }
            Ok(i)
        } else if tag == 2 {
            Ok(AppInstruction::RemoveDodo)
        } else {
            Err(AppError::InvalidInstruction)
        }
    }
}

} // verus!
