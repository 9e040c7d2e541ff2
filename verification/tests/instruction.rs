use dodo::error::AppError;
use dodo::instruction::{AppInstruction, CREATE_PAYLOAD_LEN, UPDATE_PAYLOAD_LEN};
use dodo::utils::pack_string_to_char_bytes;

fn create_ix(title: &str, tagline: &str, state: u8, ct: u64, ut: u64) -> Vec<u8> {
    let mut ix = vec![0u8];
    ix.extend_from_slice(&pack_string_to_char_bytes(title, 124).expect("title fits"));
    ix.extend_from_slice(&pack_string_to_char_bytes(tagline, 24).expect("tagline fits"));
    ix.push(state);
    ix.extend_from_slice(&ct.to_le_bytes());
    ix.extend_from_slice(&ut.to_le_bytes());
    assert_eq!(ix.len(), 1 + CREATE_PAYLOAD_LEN);
    ix
}

fn update_ix(state: u8, ut: u64) -> Vec<u8> {
    let mut ix = vec![1u8, state];
    ix.extend_from_slice(&ut.to_le_bytes());
    assert_eq!(ix.len(), 1 + UPDATE_PAYLOAD_LEN);
    ix
}

#[test]
fn tag_zero_yields_create_with_all_fields() {
    let ix = create_ix("Hi", "there", 5, 1000, 2000);
    let got = AppInstruction::unpack(&ix).expect("valid create");
    assert_eq!(
        got,
        AppInstruction::CreateDodo {
            title: "Hi".to_string(),
            tagline: "there".to_string(),
            state: 5,
            create_time: 1000,
            update_time: 2000,
        }
    );
}

#[test]
fn tag_one_yields_update_with_state_and_time_only() {
    let ix = update_ix(1, 3000);
    let got = AppInstruction::unpack(&ix).expect("valid update");
    assert_eq!(got, AppInstruction::UpdateDodo { state: 1, update_time: 3000 });
}

#[test]
fn tag_two_yields_remove() {
    assert_eq!(AppInstruction::unpack(&[2]), Ok(AppInstruction::RemoveDodo));
    // a remove needs no payload and ignores any
    assert_eq!(AppInstruction::unpack(&[2, 99, 99]), Ok(AppInstruction::RemoveDodo));
}

#[test]
fn unknown_tag_fails() {
    assert_eq!(AppInstruction::unpack(&[3]), Err(AppError::InvalidInstruction));
    assert_eq!(AppInstruction::unpack(&[255]), Err(AppError::InvalidInstruction));
}

#[test]
fn empty_buffer_fails() {
    assert_eq!(AppInstruction::unpack(&[]), Err(AppError::InvalidInstruction));
}

#[test]
fn truncated_create_fails() {
    let ix = create_ix("Hi", "", 0, 0, 0);
    assert_eq!(
        AppInstruction::unpack(&ix[..ix.len() - 1]),
        Err(AppError::InvalidInstruction)
    );
    assert_eq!(AppInstruction::unpack(&[0u8; 100]), Err(AppError::InvalidInstruction));
}

#[test]
fn truncated_update_fails() {
    assert_eq!(AppInstruction::unpack(&[1, 0]), Err(AppError::InvalidInstruction));
    assert_eq!(AppInstruction::unpack(&[1]), Err(AppError::InvalidInstruction));
}

#[test]
fn create_with_bad_text_fails() {
    let mut ix = create_ix("", "", 0, 0, 0);
    // corrupt the first title cell into a lone continuation byte
    ix[1] = 0x80;
    assert_eq!(AppInstruction::unpack(&ix), Err(AppError::InvalidInstruction));
}

#[test]
fn create_with_extra_bytes_is_accepted() {
    let mut ix = create_ix("Hi", "", 0, 1, 2);
    ix.push(0xEE);
    let got = AppInstruction::unpack(&ix).expect("bytes past the payload are ignored");
    assert_eq!(
        got,
        AppInstruction::CreateDodo {
            title: "Hi".to_string(),
            tagline: "".to_string(),
            state: 0,
            create_time: 1,
            update_time: 2,
        }
    );
}
