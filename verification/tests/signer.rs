use awsv4_http::awsv4::date::Date;
use awsv4_http::awsv4::signer::{canonical_request, compute_signature, scope, string_to_sign};
use hmac::Mac;
use sha2::Digest;

fn hmac(key: &[u8], msg: &[u8]) -> Vec<u8> {
    let mut mac = hmac::Hmac::<sha2::Sha256>::new_from_slice(key).unwrap();
    mac.update(msg);
    mac.finalize().into_bytes().to_vec()
}

fn sample_date() -> Date {
    Date::from_ymd_hms(2013, 5, 24, 0, 0, 0).unwrap()
}

#[test]
fn canonical_request_joins_lines() {
    let text = canonical_request("GET", "/test.txt", "", "host:examplebucket.s3.amazonaws.com\n", "host", "UNSIGNED-PAYLOAD");
    assert_eq!(text, "GET\n/test.txt\n\nhost:examplebucket.s3.amazonaws.com\n\nhost\nUNSIGNED-PAYLOAD");
}

#[test]
fn canonical_request_of_empty_parts() {
    assert_eq!(canonical_request("", "", "", "", "", ""), "\n\n\n\n\n");
}

#[test]
fn scope_names_timestamp_region_and_service() {
    assert_eq!(scope(&sample_date(), "us-east-1"), "20130524T000000Z/us-east-1/s3/aws4_request");
}

#[test]
fn string_to_sign_has_four_lines() {
    let canonical = "GET\n/\n\nhost:x\n\nhost\nUNSIGNED-PAYLOAD";
    let text = string_to_sign(&sample_date(), canonical, "eu-west-3");
    let hashed = hex::encode(sha2::Sha256::digest(canonical.as_bytes()));
    assert_eq!(
        text,
        format!("AWS4-HMAC-SHA256\n20130524T000000Z\n20130524T000000Z/eu-west-3/s3/aws4_request\n{hashed}")
    );
    assert_eq!(text.lines().count(), 4);
}

#[test]
fn string_to_sign_hashes_empty_request() {
    let text = string_to_sign(&sample_date(), "", "r");
    assert!(text.ends_with("\ne3b0c44298fc1c149afbf4c8996fb92427ae41e4649b934ca495991b7852b855"));
}

#[test]
fn signature_follows_the_key_derivation() {
    let date = sample_date();
    let secret = "wJalrXUtnFEMI/K7MDENG/bPxRfiCYEXAMPLEKEY";
    let sts = "AWS4-HMAC-SHA256\nsomething";
    let k_date = hmac(format!("AWS{secret}").as_bytes(), b"20130524T000000Z");
    let k_region = hmac(&k_date, b"us-east-1");
    let k_service = hmac(&k_region, b"s3");
    let k_signing = hmac(&k_service, b"aws4_request");
    let expected = hex::encode(hmac(&k_signing, sts.as_bytes()));
    let got = compute_signature(secret, &date, "us-east-1", sts);
    assert_eq!(got, expected);
    assert_eq!(got.len(), 64);
    assert!(got.chars().all(|c| c.is_ascii_digit() || ('a'..='f').contains(&c)));
}

#[test]
fn signature_depends_on_every_input() {
    let date = sample_date();
    let other_date = Date::from_ymd_hms(2013, 5, 24, 0, 0, 1).unwrap();
    let base = compute_signature("secret", &date, "us-east-1", "msg");
    assert_ne!(base, compute_signature("secret2", &date, "us-east-1", "msg"));
    assert_ne!(base, compute_signature("secret", &other_date, "us-east-1", "msg"));
    assert_ne!(base, compute_signature("secret", &date, "us-west-2", "msg"));
    assert_ne!(base, compute_signature("secret", &date, "us-east-1", "msg2"));
    assert_eq!(base, compute_signature("secret", &date, "us-east-1", "msg"));
}

#[test]
fn signature_of_known_values() {
    // HMAC-SHA256 chain computed independently for these inputs.
    let date = sample_date();
    let sig = compute_signature("key", &date, "us-east-1", "");
    let k = hmac(&hmac(&hmac(&hmac(b"AWSkey", b"20130524T000000Z"), b"us-east-1"), b"s3"), b"aws4_request");
    assert_eq!(sig, hex::encode(hmac(&k, b"")));
}

#[test]
fn canonical_request_splits_back_into_parts() {
    let parts = ["PUT", "/a/b", "x=1&y=2", "host:h", "host", "abc123"];
    let text = canonical_request(parts[0], parts[1], parts[2], parts[3], parts[4], parts[5]);
    assert_eq!(text.split('\n').collect::<Vec<&str>>(), parts.to_vec());
    let other = canonical_request("PUT", "/a/b", "x=1&y=2", "host:h", "host", "abc124");
    assert_ne!(text, other);
}

#[test]
fn string_to_sign_ends_in_hex_digest() {
    let date = sample_date();
    let a = string_to_sign(&date, "one", "r");
    let b = string_to_sign(&date, "two", "r");
    assert_ne!(a, b);
    assert_eq!(a, string_to_sign(&date, "one", "r"));
    let tail = &a[a.len() - 65..];
    assert!(tail.starts_with('\n'));
    assert!(tail[1..].chars().all(|c| c.is_ascii_digit() || ('a'..='f').contains(&c)));
}
