use mmpc_client::error::SignError;
use mmpc_client::payload::{decode, encode, PayloadKind};

#[test]
fn encode_writes_tag_delimiter_body() {
    assert_eq!(encode(PayloadKind::PublicKey, "abc"), "pk|abc");
    assert_eq!(encode(PayloadKind::Commitment, "abc"), "commitment|abc");
    assert_eq!(encode(PayloadKind::Nonce, "abc"), "R|abc");
    assert_eq!(encode(PayloadKind::Signature, "abc"), "signature|abc");
}

#[test]
fn decode_reads_each_tag() {
    let p = decode("pk|{\"x\":1}").unwrap();
    assert_eq!(p.kind, PayloadKind::PublicKey);
    assert_eq!(p.body, "{\"x\":1}");
    let p = decode("commitment|c").unwrap();
    assert_eq!(p.kind, PayloadKind::Commitment);
    assert_eq!(p.body, "c");
    let p = decode("R|r").unwrap();
    assert_eq!(p.kind, PayloadKind::Nonce);
    assert_eq!(p.body, "r");
    let p = decode("signature|").unwrap();
    assert_eq!(p.kind, PayloadKind::Signature);
    assert_eq!(p.body, "");
}

#[test]
fn decode_splits_at_the_first_delimiter() {
    let p = decode("R|a|b|c").unwrap();
    assert_eq!(p.kind, PayloadKind::Nonce);
    assert_eq!(p.body, "a|b|c");
}

#[test]
fn decode_rejects_a_text_without_delimiter() {
    assert_eq!(decode("pk").unwrap_err(), SignError::MalformedPayload);
    assert_eq!(decode("").unwrap_err(), SignError::MalformedPayload);
    assert_eq!(decode("signature").unwrap_err(), SignError::MalformedPayload);
}

#[test]
fn decode_rejects_an_unknown_tag() {
    assert_eq!(decode("key|abc").unwrap_err(), SignError::MalformedPayload);
    assert_eq!(decode("|abc").unwrap_err(), SignError::MalformedPayload);
    assert_eq!(decode("PK|abc").unwrap_err(), SignError::MalformedPayload);
    assert_eq!(decode("pkk|abc").unwrap_err(), SignError::MalformedPayload);
    assert_eq!(decode("r|abc").unwrap_err(), SignError::MalformedPayload);
}

#[test]
fn decoding_undoes_encoding() {
    let kinds = [
        PayloadKind::PublicKey,
        PayloadKind::Commitment,
        PayloadKind::Nonce,
        PayloadKind::Signature,
    ];
    let bodies = ["", "x", "a|b", "{\"R\":\"00ff\",\"blind\":\"12\"}", "h\u{e9}llo \u{1F600}"];
    for kind in kinds {
        for body in bodies {
            let text = encode(kind, body);
            let back = decode(&text).unwrap();
            assert_eq!(back.kind, kind);
            assert_eq!(back.body, body);
            assert_eq!(encode(back.kind, &back.body), text);
        }
    }
}

#[test]
fn kinds_belong_to_rounds() {
    assert_eq!(PayloadKind::PublicKey.round_index(), 0);
    assert_eq!(PayloadKind::Commitment.round_index(), 1);
    assert_eq!(PayloadKind::Nonce.round_index(), 2);
    assert_eq!(PayloadKind::Signature.round_index(), 3);
    assert_eq!(PayloadKind::for_round(0), Some(PayloadKind::PublicKey));
    assert_eq!(PayloadKind::for_round(1), Some(PayloadKind::Commitment));
    assert_eq!(PayloadKind::for_round(2), Some(PayloadKind::Nonce));
    assert_eq!(PayloadKind::for_round(3), Some(PayloadKind::Signature));
    assert_eq!(PayloadKind::for_round(4), None);
    assert_eq!(PayloadKind::PublicKey.tag_str(), "pk");
    assert_eq!(PayloadKind::Signature.tag_str(), "signature");
}
