use block_verifier::{Block, Status, Verifier};

#[test]
fn block_getters_return_the_parts() {
    let block = Block::new("payload".to_string(), "tag".to_string());
    assert_eq!(block.data(), "payload");
    assert_eq!(block.signature(), "tag");
}

#[test]
fn set_data_replaces_payload_and_keeps_signature() {
    let mut block = Block::new("payload".to_string(), "tag".to_string());
    block.set_data("other".to_string());
    assert_eq!(block.data(), "other");
    assert_eq!(block.signature(), "tag");
}

#[test]
fn cloned_block_is_equal_in_both_parts() {
    let block = Block::new("payload".to_string(), "tag".to_string());
    let copy = block.clone();
    assert_eq!(copy.data(), block.data());
    assert_eq!(copy.signature(), block.signature());
}

#[test]
fn classified_block_getters_return_the_parts() {
    let verifier = Verifier::new("key").unwrap();
    let block = verifier.create_block("data").unwrap();
    let result = verifier.information(vec![block.clone()]).unwrap();
    assert_eq!(result[0].block().data(), "data");
    assert_eq!(result[0].block().signature(), block.signature());
    assert_eq!(result[0].status(), Status::Recovered);
}

#[test]
fn status_values_are_distinct() {
    assert_ne!(Status::Recovered, Status::Valid);
    assert_ne!(Status::Valid, Status::Tampered);
    assert_ne!(Status::Recovered, Status::Tampered);
    assert_eq!(Status::Valid.clone(), Status::Valid);
}
