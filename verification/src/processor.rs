use crate::error::AppError;
use crate::instruction::{unpack_spec, AppInstruction, AppInstructionView};
use crate::schema::dodo::{
    dodo_bytes, dodo_of_bytes, dodo_wf, Dodo, DodoView, DODO_LEN, TAGLINE_LEN, TITLE_LEN,
};
use crate::utils::lemma_decode_cells_fits;
use vstd::prelude::*;

verus! {

/// One host account as the processor sees it: its address, the program that
/// owns it, its balance, and its data bytes.
pub struct Account {
    pub key: [u8; 32],
    pub owner: [u8; 32],
    pub lamports: u64,
    pub data: Vec<u8>,
}

/// True when an account keeps its address, its owner and its balance.
pub open spec fn same_meta(pre: Account, post: Account) -> bool {
    &&& post.key@ == pre.key@
    &&& post.owner@ == pre.owner@
    &&& post.lamports == pre.lamports
}

/// True when an account is wholly unchanged.
pub open spec fn account_unchanged(pre: Account, post: Account) -> bool {
    &&& same_meta(pre, post)
    &&& post.data@ == pre.data@
}

/// Compares two 32-byte identities.
fn keys_equal(a: &[u8; 32], b: &[u8; 32]) -> (r: bool)
    ensures
        r == (a@ == b@),
{
    let mut j: usize = 0;
    while j < 32
        invariant
            j <= 32,
            forall|k: int| 0 <= k < j ==> a@[k] == b@[k],
        decreases 32 - j,
    {
        if a[j] != b[j] {
            proof {
                assert(a@[j as int] != b@[j as int]);
            }
            return false;
        }
        j = j + 1;
    }
    proof {
        assert(a@ =~= b@);
    }
    true
}

pub struct Processor {}

impl Processor {
    /// Applies the command in `instruction_data` to the record account, on
    /// behalf of the actor behind `creator_account`.
    ///
    /// Every command first requires the record account to be owned by the
    /// program, then its buffer to hold a decodable record. A create
    /// overwrites the whole record and stamps the actor as creator; an
    /// update rewrites only the state and update time, and a remove hands
    /// the record account's whole balance to the actor; both demand that the
    /// actor be the recorded creator. On any failure nothing is changed.
    pub fn process(
        program_id: &[u8; 32],
        creator_account: &mut Account,
        dodo_account: &mut Account,
        instruction_data: &[u8],
    ) -> (r: Result<(), AppError>)
        requires
            unpack_spec(instruction_data@) matches Some(AppInstructionView::RemoveDodo) ==> old(
                creator_account,
            ).lamports + old(dodo_account).lamports <= u64::MAX,
        ensures
            ({
                let pre_c = *old(creator_account);
                let pre_d = *old(dodo_account);
                let post_c = *final(creator_account);
                let post_d = *final(dodo_account);
                match unpack_spec(instruction_data@) {
                    None => r == Err::<(), AppError>(AppError::InvalidInstruction)
                        && account_unchanged(pre_c, post_c) && account_unchanged(pre_d, post_d),
                    Some(op) => match op {
                        AppInstructionView::CreateDodo {
                            title,
                            tagline,
                            state,
                            create_time,
                            update_time,
                        } => {
                            if pre_d.owner@ != program_id@ {
                                r == Err::<(), AppError>(AppError::IncorrectOwner)
                                    && account_unchanged(pre_c, post_c) && account_unchanged(
                                    pre_d,
                                    post_d,
                                )
                            } else if pre_d.data@.len() != DODO_LEN || dodo_of_bytes(
                                pre_d.data@,
                            ) is None {
                                r == Err::<(), AppError>(AppError::MalformedRecord)
                                    && account_unchanged(pre_c, post_c) && account_unchanged(
                                    pre_d,
                                    post_d,
                                )
                            } else {
                                &&& r == Ok::<(), AppError>(())
                                &&& account_unchanged(pre_c, post_c)
                                &&& same_meta(pre_d, post_d)
                                &&& post_d.data@ == dodo_bytes(
                                    (DodoView {
                                        title,
                                        tagline,
                                        state,
                                        create_time,
                                        update_time,
                                        creator: pre_c.key@,
                                    }),
                                )
                            }
                        },
                        AppInstructionView::UpdateDodo { state, update_time } => {
                            if pre_d.owner@ != program_id@ {
                                r == Err::<(), AppError>(AppError::IncorrectOwner)
                                    && account_unchanged(pre_c, post_c) && account_unchanged(
                                    pre_d,
                                    post_d,
                                )
                            } else if pre_d.data@.len() != DODO_LEN || dodo_of_bytes(
                                pre_d.data@,
                            ) is None {
                                r == Err::<(), AppError>(AppError::MalformedRecord)
                                    && account_unchanged(pre_c, post_c) && account_unchanged(
                                    pre_d,
                                    post_d,
                                )
                            } else {
                                let d = dodo_of_bytes(pre_d.data@).unwrap();
                                if d.creator != pre_c.key@ {
                                    r == Err::<(), AppError>(AppError::Unauthorized)
                                        && account_unchanged(pre_c, post_c) && account_unchanged(
                                        pre_d,
                                        post_d,
                                    )
                                } else {
                                    &&& r == Ok::<(), AppError>(())
                                    &&& account_unchanged(pre_c, post_c)
                                    &&& same_meta(pre_d, post_d)
                                    &&& post_d.data@ == dodo_bytes(
                                        (DodoView { state, update_time, ..d }),
                                    )
                                }
                            }
                        },
                        AppInstructionView::RemoveDodo => {
                            if pre_d.owner@ != program_id@ {
                                r == Err::<(), AppError>(AppError::IncorrectOwner)
                                    && account_unchanged(pre_c, post_c) && account_unchanged(
                                    pre_d,
                                    post_d,
                                )
                            } else if pre_d.data@.len() != DODO_LEN || dodo_of_bytes(
                                pre_d.data@,
                            ) is None {
                                r == Err::<(), AppError>(AppError::MalformedRecord)
                                    && account_unchanged(pre_c, post_c) && account_unchanged(
                                    pre_d,
                                    post_d,
                                )
                            } else {
                                let d = dodo_of_bytes(pre_d.data@).unwrap();
                                if d.creator != pre_c.key@ {
                                    r == Err::<(), AppError>(AppError::Unauthorized)
                                        && account_unchanged(pre_c, post_c) && account_unchanged(
                                        pre_d,
                                        post_d,
                                    )
                                } else {
                                    &&& r == Ok::<(), AppError>(())
                                    &&& post_c.key@ == pre_c.key@
                                    &&& post_c.owner@ == pre_c.owner@
                                    &&& post_c.data@ == pre_c.data@
                                    &&& post_c.lamports == pre_c.lamports + pre_d.lamports
                                    &&& post_d.key@ == pre_d.key@
                                    &&& post_d.owner@ == pre_d.owner@
                                    &&& post_d.data@ == pre_d.data@
                                    &&& post_d.lamports == 0
                                }
                            }
                        },
                    },
                }
            }),
    {
        let instruction = match AppInstruction::unpack(instruction_data) {
            Ok(i) => i,
            Err(e) => {
                return Err(e);
            },
        };
        match instruction {
            AppInstruction::CreateDodo { title, tagline, state, create_time, update_time } => {
                if !keys_equal(&dodo_account.owner, program_id) {
                    return Err(AppError::IncorrectOwner);
                }
                if dodo_account.data.len() != DODO_LEN {
                    return Err(AppError::MalformedRecord);
                }
                proof {
                    assert(dodo_account.data@.subrange(0, DODO_LEN as int) =~= dodo_account.data@);
                }
                // decode the stored buffer first: a create only lands on a
                // buffer in valid layout
                match Dodo::unpack_from_slice(dodo_account.data.as_slice()) {
                    Ok(_existing) => {},
                    Err(e) => {
                        return Err(e);
                    },
                }
                let ghost title_view = title@;
                let ghost tagline_view = tagline@;
                let d = Dodo {
                    title,
                    tagline,
                    state,
                    create_time,
                    update_time,
                    creator: creator_account.key,
                };
                proof {
                    lemma_decode_cells_fits(instruction_data@.subrange(1, 1 + TITLE_LEN as int));
                    lemma_decode_cells_fits(
                        instruction_data@.subrange(
                            1 + TITLE_LEN as int,
                            1 + (TITLE_LEN + TAGLINE_LEN) as int,
                        ),
                    );
                    assert(dodo_wf(d@));
                }
                let res = d.pack_into_slice(&mut dodo_account.data);
                match res {
                    Ok(()) => {
                        proof {
                            let spec_d = (DodoView {
                                title: title_view,
                                tagline: tagline_view,
                                state,
                                create_time,
                                update_time,
                                creator: old(creator_account).key@,
                            });
                            assert(spec_d =~= d@);
                        }
                        Ok(())
                    },
                    Err(e) => Err(e),
                }
            },
            AppInstruction::UpdateDodo { state, update_time } => {
                if !keys_equal(&dodo_account.owner, program_id) {
                    return Err(AppError::IncorrectOwner);
                }
                if dodo_account.data.len() != DODO_LEN {
                    return Err(AppError::MalformedRecord);
                }
                proof {
                    assert(dodo_account.data@.subrange(0, DODO_LEN as int) =~= dodo_account.data@);
                }
                let mut d = match Dodo::unpack_from_slice(dodo_account.data.as_slice()) {
                    Ok(d) => d,
                    Err(e) => {
                        return Err(e);
                    },
                };
                if !keys_equal(&d.creator, &creator_account.key) {
                    return Err(AppError::Unauthorized);
                }
                let ghost d0 = d@;
                d.state = state;
                d.update_time = update_time;
                proof {
                    assert(d@ =~= (DodoView { state, update_time, ..d0 }));
                }
                let res = d.pack_into_slice(&mut dodo_account.data);
                match res {
                    Ok(()) => Ok(()),
                    Err(e) => Err(e),
                }
            },
            AppInstruction::RemoveDodo => {
                if !keys_equal(&dodo_account.owner, program_id) {
                    return Err(AppError::IncorrectOwner);
                }
                if dodo_account.data.len() != DODO_LEN {
                    return Err(AppError::MalformedRecord);
                }
                proof {
                    assert(dodo_account.data@.subrange(0, DODO_LEN as int) =~= dodo_account.data@);
                }
                let d = match Dodo::unpack_from_slice(dodo_account.data.as_slice()) {
                    Ok(d) => d,
                    Err(e) => {
                        return Err(e);
                    },
                };
                if !keys_equal(&d.creator, &creator_account.key) {
                    return Err(AppError::Unauthorized);
                }
                // hand the record account's whole balance to the creator
                let lamports = dodo_account.lamports;
                dodo_account.lamports = 0;
                creator_account.lamports = creator_account.lamports + lamports;
                Ok(())
            },
        }
    }
}

} // verus!
