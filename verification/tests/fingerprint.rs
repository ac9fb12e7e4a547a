use block_verifier::hashing::canonical_form;
use block_verifier::{Block, Verifier};

#[test]
fn hash_blocks() {
    let verifier = Verifier::new("key").unwrap();

    let block1 = verifier.create_block("data1").unwrap();

    let block2 = verifier.create_block("data2").unwrap();

    let hash1 = Verifier::hash_block(&block1).unwrap();
    let hash2 = Verifier::hash_block(&block1).unwrap();
    let hash3 = Verifier::hash_block(&block2).unwrap();

    assert_eq!(hash1, hash2);
    assert_ne!(hash1, hash3);
}

#[test]
fn canonical_form_is_the_compact_json_object() {
    assert_eq!(
        canonical_form("\"a\"", "\"b\""),
        "{\"data\":\"a\",\"signature\":\"b\"}"
    );
    assert_eq!(canonical_form("", ""), "{\"data\":,\"signature\":}");
}

#[test]
fn digest_is_sha256_of_the_canonical_form() {
    let verifier = Verifier::new("key").unwrap();
    let block = verifier.create_block("data1").unwrap();
    assert_eq!(
        Verifier::hash_block(&block).unwrap(),
        "4jsOQcuhLhJydXSuxRX+f9O7d7Gfb7PrDUlAgsCsZjk"
    );
}

#[test]
fn digest_of_empty_block() {
    let block = Block::new(String::new(), String::new());
    assert_eq!(
        Verifier::hash_block(&block).unwrap(),
        "1Ux61MvlYs72TLntRi2xgIbGwRTWSjyV8e5uhVKvvDE"
    );
}

#[test]
fn digest_escapes_fields_as_json_strings() {
    let block = Block::new(
        "say \"hi\"\\\n\tend\u{1} é".to_string(),
        "sig".to_string(),
    );
    assert_eq!(
        Verifier::hash_block(&block).unwrap(),
        "ypgjcInDYpZcxlvfs4EgUC2Dvxi7fj3hL4RcjV/Z+Q4"
    );
}

#[test]
fn digest_needs_no_key() {
    let one = Verifier::new("key").unwrap();
    let block = one.create_block("data1").unwrap();
    let copy = Block::new(block.data(), block.signature());
    assert_eq!(
        Verifier::hash_block(&block).unwrap(),
        Verifier::hash_block(&copy).unwrap()
    );
}

#[test]
fn digest_changes_with_either_field() {
    let block = Block::new("data".to_string(), "sig".to_string());
    let other_data = Block::new("datb".to_string(), "sig".to_string());
    let other_signature = Block::new("data".to_string(), "sih".to_string());
    let swapped = Block::new("sig".to_string(), "data".to_string());
    let hash = Verifier::hash_block(&block).unwrap();
    assert_ne!(hash, Verifier::hash_block(&other_data).unwrap());
    assert_ne!(hash, Verifier::hash_block(&other_signature).unwrap());
    assert_ne!(hash, Verifier::hash_block(&swapped).unwrap());
}

#[test]
fn digest_has_no_padding() {
    let block = Block::new("data".to_string(), "sig".to_string());
    let hash = Verifier::hash_block(&block).unwrap();
    assert_eq!(hash.len(), 43);
    assert!(!hash.contains('='));
}
