use dodo::error::AppError;
use dodo::processor::{Account, Processor};
use dodo::schema::dodo::{Dodo, DODO_LEN};
use dodo::utils::pack_string_to_char_bytes;

const PROGRAM_ID: [u8; 32] = [0xAA; 32];

fn actor(key_byte: u8) -> Account {
    Account { key: [key_byte; 32], owner: [0x55; 32], lamports: 10, data: Vec::new() }
}

fn record_account(lamports: u64) -> Account {
    Account { key: [0xCC; 32], owner: PROGRAM_ID, lamports, data: vec![0u8; DODO_LEN] }
}

fn create_ix(title: &str, tagline: &str, state: u8, ct: u64, ut: u64) -> Vec<u8> {
    let mut ix = vec![0u8];
    ix.extend_from_slice(&pack_string_to_char_bytes(title, 124).expect("title fits"));
    ix.extend_from_slice(&pack_string_to_char_bytes(tagline, 24).expect("tagline fits"));
    ix.push(state);
    ix.extend_from_slice(&ct.to_le_bytes());
    ix.extend_from_slice(&ut.to_le_bytes());
    ix
}

fn update_ix(state: u8, ut: u64) -> Vec<u8> {
    let mut ix = vec![1u8, state];
    ix.extend_from_slice(&ut.to_le_bytes());
    ix
}

#[test]
fn create_writes_record_with_creator() {
    let mut a = actor(1);
    let mut rec = record_account(100);
    let ix = create_ix("Hi", "", 0, 1000, 1000);
    assert_eq!(Processor::process(&PROGRAM_ID, &mut a, &mut rec, &ix), Ok(()));
    let d = Dodo::unpack_from_slice(&rec.data).expect("valid record");
    assert_eq!(d.title, "Hi");
    assert_eq!(d.tagline, "");
    assert_eq!(d.state, 0);
    assert_eq!(d.create_time, 1000);
    assert_eq!(d.update_time, 1000);
    assert_eq!(d.creator, [1u8; 32]);
    assert_eq!(rec.lamports, 100);
    assert_eq!(a.lamports, 10);
}

#[test]
fn create_on_foreign_account_fails() {
    let mut a = actor(1);
    let mut rec = record_account(100);
    rec.owner = [0xBB; 32];
    let before = rec.data.clone();
    let ix = create_ix("Hi", "", 0, 1000, 1000);
    assert_eq!(
        Processor::process(&PROGRAM_ID, &mut a, &mut rec, &ix),
        Err(AppError::IncorrectOwner)
    );
    assert_eq!(rec.data, before);
}

#[test]
fn update_by_creator_changes_only_state_and_time() {
    let mut a = actor(1);
    let mut rec = record_account(100);
    let ix = create_ix("Hi", "tag", 0, 1000, 1000);
    assert_eq!(Processor::process(&PROGRAM_ID, &mut a, &mut rec, &ix), Ok(()));
    let ix = update_ix(1, 2000);
    assert_eq!(Processor::process(&PROGRAM_ID, &mut a, &mut rec, &ix), Ok(()));
    let d = Dodo::unpack_from_slice(&rec.data).expect("valid record");
    assert_eq!(d.title, "Hi");
    assert_eq!(d.tagline, "tag");
    assert_eq!(d.state, 1);
    assert_eq!(d.create_time, 1000);
    assert_eq!(d.update_time, 2000);
    assert_eq!(d.creator, [1u8; 32]);
}

#[test]
fn update_by_other_actor_fails_unauthorized() {
    let mut a = actor(1);
    let mut rec = record_account(100);
    let ix = create_ix("Hi", "", 0, 1000, 1000);
    assert_eq!(Processor::process(&PROGRAM_ID, &mut a, &mut rec, &ix), Ok(()));
    let before = rec.data.clone();
    let mut b = actor(2);
    let ix = update_ix(1, 2000);
    assert_eq!(
        Processor::process(&PROGRAM_ID, &mut b, &mut rec, &ix),
        Err(AppError::Unauthorized)
    );
    assert_eq!(rec.data, before, "a failed update must not touch the record");
    assert_eq!(b.lamports, 10);
}

#[test]
fn remove_by_creator_settles_balance() {
    let mut a = actor(1);
    let mut rec = record_account(100);
    let ix = create_ix("Hi", "", 0, 1000, 1000);
    assert_eq!(Processor::process(&PROGRAM_ID, &mut a, &mut rec, &ix), Ok(()));
    let before = rec.data.clone();
    assert_eq!(Processor::process(&PROGRAM_ID, &mut a, &mut rec, &[2]), Ok(()));
    assert_eq!(rec.lamports, 0);
    assert_eq!(a.lamports, 110);
    assert_eq!(rec.data, before, "a remove leaves the serialized bytes in place");
}

#[test]
fn remove_by_other_actor_fails_unauthorized() {
    let mut a = actor(1);
    let mut rec = record_account(100);
    let ix = create_ix("Hi", "", 0, 1000, 1000);
    assert_eq!(Processor::process(&PROGRAM_ID, &mut a, &mut rec, &ix), Ok(()));
    let mut b = actor(2);
    assert_eq!(
        Processor::process(&PROGRAM_ID, &mut b, &mut rec, &[2]),
        Err(AppError::Unauthorized)
    );
    assert_eq!(rec.lamports, 100);
    assert_eq!(b.lamports, 10);
}

#[test]
fn unknown_instruction_fails() {
    let mut a = actor(1);
    let mut rec = record_account(100);
    assert_eq!(
        Processor::process(&PROGRAM_ID, &mut a, &mut rec, &[9]),
        Err(AppError::InvalidInstruction)
    );
}

#[test]
fn malformed_record_buffer_fails() {
    let mut a = actor(1);
    let ix = update_ix(1, 2000);
    // wrong length
    let mut rec = record_account(100);
    rec.data = vec![0u8; DODO_LEN - 1];
    assert_eq!(
        Processor::process(&PROGRAM_ID, &mut a, &mut rec, &ix),
        Err(AppError::MalformedRecord)
    );
    // right length, undecodable title cell
    let mut rec = record_account(100);
    rec.data[0] = 0xFF;
    assert_eq!(
        Processor::process(&PROGRAM_ID, &mut a, &mut rec, &ix),
        Err(AppError::MalformedRecord)
    );
}

#[test]
fn fresh_buffer_decodes_as_empty_record() {
    // an all-zero buffer is indistinguishable from a created empty record
    // whose creator is the zero identity; ordering of operations is enforced
    // only as far as decoding can tell
    let d = Dodo::unpack_from_slice(&vec![0u8; DODO_LEN]).expect("all-zero decodes");
    assert_eq!(d.title, "");
    assert_eq!(d.tagline, "");
    assert_eq!(d.creator, [0u8; 32]);
    let mut zero_actor = Account { key: [0u8; 32], owner: [0x55; 32], lamports: 0, data: Vec::new() };
    let mut rec = record_account(1);
    assert_eq!(
        Processor::process(&PROGRAM_ID, &mut zero_actor, &mut rec, &update_ix(1, 5)),
        Ok(())
    );
}

#[test]
fn end_to_end_scenario() {
    // create by actor A on a fresh buffer
    let mut a = actor(1);
    let mut rec = record_account(100);
    let ix = create_ix("Hi", "", 0, 1000, 1000);
    assert_eq!(Processor::process(&PROGRAM_ID, &mut a, &mut rec, &ix), Ok(()));
    let d = Dodo::unpack_from_slice(&rec.data).expect("valid record");
    assert_eq!(
        d,
        Dodo {
            title: "Hi".to_string(),
            tagline: "".to_string(),
            state: 0,
            create_time: 1000,
            update_time: 1000,
            creator: [1u8; 32],
        }
    );
    // update by actor A
    let ix = update_ix(1, 2000);
    assert_eq!(Processor::process(&PROGRAM_ID, &mut a, &mut rec, &ix), Ok(()));
    let d = Dodo::unpack_from_slice(&rec.data).expect("valid record");
    assert_eq!(
        d,
        Dodo {
            title: "Hi".to_string(),
            tagline: "".to_string(),
            state: 1,
            create_time: 1000,
            update_time: 2000,
            creator: [1u8; 32],
        }
    );
    // remove by actor B, who is not the creator
    let mut b = actor(2);
    let before = rec.data.clone();
    assert_eq!(
        Processor::process(&PROGRAM_ID, &mut b, &mut rec, &[2]),
        Err(AppError::Unauthorized)
    );
    assert_eq!(rec.data, before);
    assert_eq!(rec.lamports, 100);
}
