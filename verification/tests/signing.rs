use block_verifier::{Block, Error, Verifier};

#[test]
fn verifier_new() {
    assert!(Verifier::new("valid_key").is_ok());
    assert!(matches!(Verifier::new(""), Err(Error::InvalidSecretKey)));
}

#[test]
fn create_and_verify_block() {
    let verifier = Verifier::new("key").unwrap();
    let block = verifier.create_block("data").unwrap();
    assert!(verifier.verify_block(&block).unwrap());
}

#[test]
fn sign_and_verify_data() {
    let verifier = Verifier::new("key").unwrap();

    let data = "data";

    let signature = verifier.sign_data(data).unwrap();

    assert!(verifier.verify_data(data, &signature).unwrap());
    assert!(!verifier.verify_data("tampered_data", &signature).unwrap());
}

#[test]
fn verify_block_tampered() {
    let verifier = Verifier::new("key").unwrap();

    let mut block = verifier.create_block("original_data").unwrap();

    block.set_data("tampered_data".to_string());

    assert!(!verifier.verify_block(&block).unwrap());
}

#[test]
fn short_keys_are_accepted() {
    assert!(Verifier::new("k").is_ok());
    assert!(Verifier::new(" ").is_ok());
}

#[test]
fn signature_is_hmac_sha256_in_unpadded_base64() {
    let verifier = Verifier::new("key").unwrap();
    assert_eq!(
        verifier.sign_data("data").unwrap(),
        "UDH+PZicbRU3oBP6bnOdojRj/a7DtwE32Cjjas4iG9A"
    );
    assert_eq!(
        verifier
            .sign_data("The quick brown fox jumps over the lazy dog")
            .unwrap(),
        "97yD9DBThCSxMpjmqm+xQ+9NWaFJRhdZl0edvC0aPNg"
    );
    assert_eq!(
        verifier.sign_data("").unwrap(),
        "XV0TlWPJW1lnub2ajJsjOp3ttFByeUzSMtwbdIMmB9A"
    );
}

#[test]
fn key_and_data_are_taken_as_utf8() {
    let verifier = Verifier::new("schlüssel€").unwrap();
    let signature = verifier.sign_data("grüße").unwrap();
    assert_eq!(signature, "aDBp+FhiFaGQSxoc7fH0fgJSg4J4KXci6pFa1eBeNHk");
    assert!(verifier.verify_data("grüße", &signature).unwrap());
}

#[test]
fn signature_has_no_padding() {
    let verifier = Verifier::new("key").unwrap();
    let signature = verifier.sign_data("data").unwrap();
    assert_eq!(signature.len(), 43);
    assert!(!signature.contains('='));
}

#[test]
fn signing_is_deterministic() {
    let verifier = Verifier::new("key").unwrap();
    let again = Verifier::new("key").unwrap();
    assert_eq!(
        verifier.sign_data("data").unwrap(),
        verifier.sign_data("data").unwrap()
    );
    assert_eq!(
        verifier.sign_data("data").unwrap(),
        again.sign_data("data").unwrap()
    );
}

#[test]
fn own_signature_always_verifies() {
    for key in ["key", "k", "a much longer key, longer than one block of the hash function, to take the other path"] {
        let verifier = Verifier::new(key).unwrap();
        for data in ["", "data", "data1", "with\nnewline", "ünïcödé"] {
            let signature = verifier.sign_data(data).unwrap();
            assert!(verifier.verify_data(data, &signature).unwrap());
        }
    }
}

#[test]
fn distinct_data_gives_distinct_signatures() {
    let verifier = Verifier::new("key").unwrap();
    let data = ["data1", "data2", "data3", "data4", "data5", "", "data"];
    for (i, a) in data.iter().enumerate() {
        for b in &data[i + 1..] {
            assert_ne!(
                verifier.sign_data(a).unwrap(),
                verifier.sign_data(b).unwrap()
            );
        }
    }
}

#[test]
fn distinct_keys_give_distinct_signatures() {
    let one = Verifier::new("key").unwrap();
    let other = Verifier::new("other").unwrap();
    let signature = one.sign_data("data").unwrap();
    assert_ne!(signature, other.sign_data("data").unwrap());
    assert!(!other.verify_data("data", &signature).unwrap());
}

#[test]
fn signature_that_is_not_base64_is_an_error() {
    let verifier = Verifier::new("key").unwrap();
    assert!(matches!(
        verifier.verify_data("data", "not base64!"),
        Err(Error::Base64(_))
    ));
    assert!(matches!(
        verifier.verify_data("data", "UDH+PZicbRU3oBP6bnOdojRj/a7DtwE32Cjjas4iG9A="),
        Err(Error::Base64(_))
    ));
}

#[test]
fn tag_of_wrong_length_is_an_error() {
    let verifier = Verifier::new("key").unwrap();
    assert!(matches!(
        verifier.verify_data("data", ""),
        Err(Error::Hmac(_))
    ));
    assert!(matches!(
        verifier.verify_data("data", "AAAAAAAAAAAAAAAAAAAAAAAAAAAAAAAAAAAAAAAAAA"),
        Err(Error::Hmac(_))
    ));
    assert!(matches!(
        verifier.verify_data("data", "AAAAAAAAAAAAAAAAAAAAAAAAAAAAAAAAAAAAAAAAAAAA"),
        Err(Error::Hmac(_))
    ));
}

#[test]
fn well_formed_tag_that_differs_is_false() {
    let verifier = Verifier::new("key").unwrap();
    assert!(!verifier
        .verify_data("data", "AAAAAAAAAAAAAAAAAAAAAAAAAAAAAAAAAAAAAAAAAAA")
        .unwrap());
}

#[test]
fn verify_block_fails_as_verify_data_does() {
    let verifier = Verifier::new("key").unwrap();
    let block = Block::new("data".to_string(), "%%%".to_string());
    assert!(matches!(
        verifier.verify_block(&block),
        Err(Error::Base64(_))
    ));
    let block = Block::new("data".to_string(), "AAAA".to_string());
    assert!(matches!(verifier.verify_block(&block), Err(Error::Hmac(_))));
}

#[test]
fn created_block_holds_data_and_signature() {
    let verifier = Verifier::new("key").unwrap();
    let block = verifier.create_block("data").unwrap();
    assert_eq!(block.data(), "data");
    assert_eq!(
        block.signature(),
        "UDH+PZicbRU3oBP6bnOdojRj/a7DtwE32Cjjas4iG9A"
    );
    assert_eq!(block.signature(), verifier.sign_data("data").unwrap());
}

#[test]
fn block_from_parts_verifies_like_a_created_one() {
    let verifier = Verifier::new("key").unwrap();
    let block = Block::new(
        "data".to_string(),
        "UDH+PZicbRU3oBP6bnOdojRj/a7DtwE32Cjjas4iG9A".to_string(),
    );
    assert!(verifier.verify_block(&block).unwrap());
}
