use mega::{parse_challenge, proof_header, Challenge};

#[test]
fn challenge_well_formed() {
    let c = parse_challenge("1:192:1700000000:AbCdEf").unwrap();
    assert_eq!(c, Challenge { token: "AbCdEf".to_string(), easiness: 192 });
}

#[test]
fn challenge_easiness_bounds() {
    assert_eq!(parse_challenge("1:0:5:t").unwrap().easiness, 0);
    assert_eq!(parse_challenge("1:255:5:t").unwrap().easiness, 255);
    assert_eq!(parse_challenge("1:00007:5:t").unwrap().easiness, 7);
    assert!(parse_challenge("1:256:5:t").is_none());
    assert!(parse_challenge("1:99999999999999999999:5:t").is_none());
}

#[test]
fn challenge_garbled() {
    assert!(parse_challenge("").is_none());
    assert!(parse_challenge("garbage").is_none());
    assert!(parse_challenge("2:192:5:tok").is_none());
    assert!(parse_challenge("11:192:5:tok").is_none());
    assert!(parse_challenge("1::5:tok").is_none());
    assert!(parse_challenge("1:1a:5:tok").is_none());
    assert!(parse_challenge("1:192:5:").is_none());
    assert!(parse_challenge("1:192:5").is_none());
    assert!(parse_challenge("1:192:5:tok:extra").is_none());
}

#[test]
fn proof_header_format() {
    assert_eq!(proof_header("AbCdEf", "xyz"), "1:AbCdEf:xyz");
    assert_eq!(proof_header("", ""), "1::");
}
