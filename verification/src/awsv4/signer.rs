//! The strings that Signature Version 4 signs and the signature itself.

use vstd::prelude::*;
use vstd::string::*;
use vstd::utf8::encode_utf8;

use crate::awsv4::date::{
    compact_timestamp, lemma_timestamp_chars, lemma_timestamp_injective, valid_civil, Civil, Date,
    DateFormatting,
};
use crate::crypto::{
    hex_encode, hex_lower, hmac_sha256, hmac_sha256_tag, is_lower_hex_char, lemma_hex_lower_injective,
    lemma_hex_lower_shape, sha256, sha256_digest,
};

verus! {

/// A secret access key, as text.
pub type SecretKey = str;

/// A region name such as `us-east-1`.
pub type Region = str;

/// `<timestamp>/<region>/s3/aws4_request`: the credential scope.
pub open spec fn scope_text(date: Civil, region: Seq<char>) -> Seq<char> {
    compact_timestamp(date) + seq!['/'] + region + "/s3/aws4_request"@
}

/// The four lines of the string to sign: the algorithm, the timestamp, the
/// scope, and the hex SHA-256 of the canonical request's UTF-8 bytes.
pub open spec fn string_to_sign_text(date: Civil, canonical_request: Seq<char>, region: Seq<char>) -> Seq<
    char,
> {
    "AWS4-HMAC-SHA256"@ + seq!['\n'] + compact_timestamp(date) + seq!['\n'] + scope_text(date, region)
        + seq!['\n'] + hex_lower(sha256_digest(encode_utf8(canonical_request)))
}

/// The six parts of a canonical request, one per line.
pub open spec fn canonical_request_text(
    http_method: Seq<char>,
    canonical_uri: Seq<char>,
    canonical_query_string: Seq<char>,
    canonical_headers: Seq<char>,
    signed_headers: Seq<char>,
    hashed_payload: Seq<char>,
) -> Seq<char> {
    http_method + seq!['\n'] + canonical_uri + seq!['\n'] + canonical_query_string + seq!['\n']
        + canonical_headers + seq!['\n'] + signed_headers + seq!['\n'] + hashed_payload
}

/// The signing key: `AWS<secret>` keys an HMAC of the timestamp, whose tag
/// keys an HMAC of the region, then of `s3`, then of `aws4_request`.
pub open spec fn signing_key(secret_key: Seq<char>, date: Civil, region: Seq<char>) -> Seq<u8> {
    let date_key = hmac_sha256_tag(encode_utf8("AWS"@ + secret_key), encode_utf8(compact_timestamp(date)));
    let region_key = hmac_sha256_tag(date_key, encode_utf8(region));
    let service_key = hmac_sha256_tag(region_key, encode_utf8("s3"@));
    hmac_sha256_tag(service_key, encode_utf8("aws4_request"@))
}

/// The signature: hex of the HMAC of the string to sign under the signing key.
pub open spec fn signature_text(
    secret_key: Seq<char>,
    date: Civil,
    region: Seq<char>,
    string_to_sign: Seq<char>,
) -> Seq<char> {
    hex_lower(hmac_sha256_tag(signing_key(secret_key, date, region), encode_utf8(string_to_sign)))
}

/// The credential scope of a request signed at `date` for `region`.
pub fn scope(date: &Date, region: &Region) -> (text: String)
    ensures
        text@ == scope_text(date@, region@),
{
    let mut text = date.format_yyyymmddthhmmssz();
    proof {
        reveal_strlit("/");
    }
    text.append("/");
    text.append(region);
    text.append("/s3/aws4_request");
    assert(text@ =~= scope_text(date@, region@));
    text
}

/// The string to sign for a canonical request made at `date` in `region`.
pub fn string_to_sign(date: &Date, canonical_request: &str, region: &Region) -> (text: String)
    ensures
        text@ == string_to_sign_text(date@, canonical_request@, region@),
        text@.len() >= 65,
        text@[text@.len() - 65] == '\n',
        forall|i: int| text@.len() - 64 <= i < text@.len() ==> is_lower_hex_char(#[trigger] text@[i]),
{
    let digest = sha256(canonical_request.as_bytes());
    let hashed = hex_encode(&digest);
    let mut text = String::from_str("AWS4-HMAC-SHA256");
    proof {
        reveal_strlit("\n");
    }
    text.append("\n");
    let timestamp = date.format_yyyymmddthhmmssz();
    text.append(timestamp.as_str());
    text.append("\n");
    let credential_scope = scope(date, region);
    text.append(credential_scope.as_str());
    text.append("\n");
    let ghost before = text@;
    text.append(hashed.as_str());
    assert(text@ =~= string_to_sign_text(date@, canonical_request@, region@));
    proof {
        lemma_hex_lower_shape(digest@);
        assert(hashed@.len() == 64);
        assert(before[before.len() - 1] == '\n');
        assert forall|i: int| text@.len() - 64 <= i < text@.len() implies is_lower_hex_char(
            #[trigger] text@[i],
        ) by {
            assert(text@[i] == hashed@[i - before.len()]);
        }
    }
    text
}

/// Joins the six parts of a canonical request with newlines.
pub fn canonical_request(
    http_method: &str,
    canonical_uri: &str,
    canonical_query_string: &str,
    canonical_headers: &str,
    signed_headers: &str,
    hashed_payload: &str,
) -> (text: String)
    ensures
        text@ == canonical_request_text(
            http_method@,
            canonical_uri@,
            canonical_query_string@,
            canonical_headers@,
            signed_headers@,
            hashed_payload@,
        ),
{
    proof {
        reveal_strlit("\n");
    }
    let mut text = String::from_str(http_method);
    text.append("\n");
    text.append(canonical_uri);
    text.append("\n");
    text.append(canonical_query_string);
    text.append("\n");
    text.append(canonical_headers);
    text.append("\n");
    text.append(signed_headers);
    text.append("\n");
    text.append(hashed_payload);
    assert(text@ =~= canonical_request_text(
        http_method@,
        canonical_uri@,
        canonical_query_string@,
        canonical_headers@,
        signed_headers@,
        hashed_payload@,
    ));
    text
}

/// The hex signature of `string_to_sign` with the key derived from the secret,
/// the timestamp and the region.
pub fn compute_signature(
    secret_key: &SecretKey,
    date: &Date,
    region: &Region,
    string_to_sign: &str,
) -> (signature: String)
    ensures
        signature@ == signature_text(secret_key@, date@, region@, string_to_sign@),
        signature@.len() == 64,
{
    let mut keyed = String::from_str("AWS");
    keyed.append(secret_key);
    let timestamp = date.format_yyyymmddthhmmssz();
    let date_key = hmac_sha256(keyed.as_str().as_bytes(), timestamp.as_str().as_bytes());
    let region_key = hmac_sha256(&date_key, region.as_bytes());
    let service_key = hmac_sha256(&region_key, "s3".as_bytes());
    let key = hmac_sha256(&service_key, "aws4_request".as_bytes());
    let tag = hmac_sha256(&key, string_to_sign.as_bytes());
    let signature = hex_encode(&tag);
    proof {
        crate::crypto::lemma_hex_lower_shape(tag@);
    }
    signature
}

/// Everything of the string to sign before the hex digest.
pub open spec fn string_to_sign_prefix(date: Civil, region: Seq<char>) -> Seq<char> {
    "AWS4-HMAC-SHA256"@ + seq!['\n'] + compact_timestamp(date) + seq!['\n'] + scope_text(date, region)
        + seq!['\n']
}

/// For a fixed timestamp and region, two canonical requests give the same
/// string to sign exactly when their SHA-256 digests are equal.
pub proof fn lemma_string_to_sign_injective(
    date: Civil,
    canonical_a: Seq<char>,
    canonical_b: Seq<char>,
    region: Seq<char>,
)
    ensures
        (string_to_sign_text(date, canonical_a, region) == string_to_sign_text(date, canonical_b, region))
            <==> (sha256_digest(encode_utf8(canonical_a)) == sha256_digest(encode_utf8(canonical_b))),
{
    let p = string_to_sign_prefix(date, region);
    let ha = hex_lower(sha256_digest(encode_utf8(canonical_a)));
    let hb = hex_lower(sha256_digest(encode_utf8(canonical_b)));
    let ta = string_to_sign_text(date, canonical_a, region);
    let tb = string_to_sign_text(date, canonical_b, region);
    assert(ta =~= p + ha);
    assert(tb =~= p + hb);
    if ta == tb {
        assert(ta.subrange(p.len() as int, ta.len() as int) =~= ha);
        assert(tb.subrange(p.len() as int, tb.len() as int) =~= hb);
        lemma_hex_lower_injective(
            sha256_digest(encode_utf8(canonical_a)),
            sha256_digest(encode_utf8(canonical_b)),
        );
    }
}

/// The pieces of `s` between occurrences of `sep`, as `str::split(sep)`
/// yields them: one piece more than there are separators, empty pieces
/// included.
pub open spec fn split_on(s: Seq<char>, sep: char) -> Seq<Seq<char>>
    decreases s.len(),
{
    if s.len() == 0 {
        seq![Seq::<char>::empty()]
    } else {
        let rest = split_on(s.drop_first(), sep);
        if s[0] == sep {
            seq![Seq::<char>::empty()] + rest
        } else {
            rest.update(0, seq![s[0]] + rest[0])
        }
    }
}

/// The pieces of `s` between newlines, as `str::split('\n')` yields them.
pub open spec fn split_newlines(s: Seq<char>) -> Seq<Seq<char>> {
    split_on(s, '\n')
}

/// Whether `s` holds a newline.
pub open spec fn has_newline(s: Seq<char>) -> bool {
    s.contains('\n')
}

proof fn lemma_contains_drop_first(a: Seq<char>, c: char)
    requires
        a.len() > 0,
        !a.contains(c),
    ensures
        a[0] != c,
        !a.drop_first().contains(c),
{
    assert(a.contains(a[0]));
    if a.drop_first().contains(c) {
        let i = choose|i: int| 0 <= i < a.drop_first().len() && a.drop_first()[i] == c;
        assert(a[i + 1] == c);
    }
}

/// Text without the separator splits into itself.
proof fn lemma_split_plain(a: Seq<char>, sep: char)
    requires
        !a.contains(sep),
    ensures
        split_on(a, sep) == seq![a],
    decreases a.len(),
{
    if a.len() > 0 {
        lemma_contains_drop_first(a, sep);
        lemma_split_plain(a.drop_first(), sep);
        assert(seq![a[0]] + a.drop_first() =~= a);
        assert(split_on(a, sep) =~= seq![a]);
    } else {
        assert(a =~= Seq::<char>::empty());
    }
}

/// A separator-free piece, the separator, then the rest: the piece comes
/// first.
proof fn lemma_split_join(a: Seq<char>, sep: char, b: Seq<char>)
    requires
        !a.contains(sep),
    ensures
        split_on(a + seq![sep] + b, sep) == seq![a] + split_on(b, sep),
    decreases a.len(),
{
    let s = a + seq![sep] + b;
    if a.len() == 0 {
        assert(s[0] == sep);
        assert(s.drop_first() =~= b);
        assert(a =~= Seq::<char>::empty());
        assert(split_on(s, sep) =~= seq![a] + split_on(b, sep));
    } else {
        lemma_contains_drop_first(a, sep);
        assert(s[0] == a[0]);
        assert(s.drop_first() =~= a.drop_first() + seq![sep] + b);
        lemma_split_join(a.drop_first(), sep, b);
        assert(seq![a[0]] + a.drop_first() =~= a);
        assert(split_on(s, sep) =~= seq![a] + split_on(b, sep));
    }
}

/// Splitting a canonical request of newline-free parts on newlines gives back
/// its six parts, in order.
pub proof fn lemma_canonical_request_split(
    http_method: Seq<char>,
    canonical_uri: Seq<char>,
    canonical_query_string: Seq<char>,
    canonical_headers: Seq<char>,
    signed_headers: Seq<char>,
    hashed_payload: Seq<char>,
)
    requires
        !has_newline(http_method),
        !has_newline(canonical_uri),
        !has_newline(canonical_query_string),
        !has_newline(canonical_headers),
        !has_newline(signed_headers),
        !has_newline(hashed_payload),
    ensures
        split_newlines(
            canonical_request_text(
                http_method,
                canonical_uri,
                canonical_query_string,
                canonical_headers,
                signed_headers,
                hashed_payload,
            ),
        ) == seq![
            http_method,
            canonical_uri,
            canonical_query_string,
            canonical_headers,
            signed_headers,
            hashed_payload,
        ],
{
    let nl = seq!['\n'];
    let t5 = signed_headers + nl + hashed_payload;
    let t4 = canonical_headers + nl + t5;
    let t3 = canonical_query_string + nl + t4;
    let t2 = canonical_uri + nl + t3;
    let t1 = http_method + nl + t2;
    assert(canonical_request_text(
        http_method,
        canonical_uri,
        canonical_query_string,
        canonical_headers,
        signed_headers,
        hashed_payload,
    ) =~= t1);
    lemma_split_plain(hashed_payload, '\n');
    lemma_split_join(signed_headers, '\n', hashed_payload);
    lemma_split_join(canonical_headers, '\n', t5);
    lemma_split_join(canonical_query_string, '\n', t4);
    lemma_split_join(canonical_uri, '\n', t3);
    lemma_split_join(http_method, '\n', t2);
    assert(split_newlines(t1) =~= seq![
        http_method,
        canonical_uri,
        canonical_query_string,
        canonical_headers,
        signed_headers,
        hashed_payload,
    ]);
}

/// Joining newline-free parts is one-to-one: two canonical requests of such
/// parts are equal exactly when their six parts are.
pub proof fn lemma_canonical_request_injective(
    a: (Seq<char>, Seq<char>, Seq<char>, Seq<char>, Seq<char>, Seq<char>),
    b: (Seq<char>, Seq<char>, Seq<char>, Seq<char>, Seq<char>, Seq<char>),
)
    requires
        !has_newline(a.0),
        !has_newline(a.1),
        !has_newline(a.2),
        !has_newline(a.3),
        !has_newline(a.4),
        !has_newline(a.5),
        !has_newline(b.0),
        !has_newline(b.1),
        !has_newline(b.2),
        !has_newline(b.3),
        !has_newline(b.4),
        !has_newline(b.5),
    ensures
        (canonical_request_text(a.0, a.1, a.2, a.3, a.4, a.5) == canonical_request_text(
            b.0,
            b.1,
            b.2,
            b.3,
            b.4,
            b.5,
        )) <==> a == b,
{
    lemma_canonical_request_split(a.0, a.1, a.2, a.3, a.4, a.5);
    lemma_canonical_request_split(b.0, b.1, b.2, b.3, b.4, b.5);
    if canonical_request_text(a.0, a.1, a.2, a.3, a.4, a.5) == canonical_request_text(
        b.0,
        b.1,
        b.2,
        b.3,
        b.4,
        b.5,
    ) {
        let sa = seq![a.0, a.1, a.2, a.3, a.4, a.5];
        let sb = seq![b.0, b.1, b.2, b.3, b.4, b.5];
        assert(sa == sb);
        assert(sa[0] == sb[0] && sa[1] == sb[1] && sa[2] == sb[2]);
        assert(sa[3] == sb[3] && sa[4] == sb[4] && sa[5] == sb[5]);
    }
}

proof fn lemma_concat_lacks(a: Seq<char>, b: Seq<char>, c: char)
    requires
        !a.contains(c),
        !b.contains(c),
    ensures
        !(a + b).contains(c),
{
    if (a + b).contains(c) {
        let i = choose|i: int| 0 <= i < (a + b).len() && (a + b)[i] == c;
        if i < a.len() {
            assert(a[i] == c);
        } else {
            assert(b[i - a.len()] == c);
        }
    }
}

/// The fixed tail of a scope, field by field.
proof fn lemma_scope_suffix()
    ensures
        "/s3/aws4_request"@ == seq!['/'] + "s3"@ + seq!['/'] + "aws4_request"@,
        !"s3"@.contains('/'),
        !"aws4_request"@.contains('/'),
        !"/s3/aws4_request"@.contains('\n'),
{
    reveal_strlit("/s3/aws4_request");
    reveal_strlit("s3");
    reveal_strlit("aws4_request");
    assert("/s3/aws4_request"@ =~= seq!['/'] + "s3"@ + seq!['/'] + "aws4_request"@);
}

/// A scope begins with the `%Y%m%dT%H%M%SZ` text of its date, time of day
/// included.
pub proof fn lemma_scope_starts_with_timestamp(date: Civil, region: Seq<char>)
    ensures
        compact_timestamp(date).is_prefix_of(scope_text(date, region)),
{
    assert(scope_text(date, region).subrange(0, compact_timestamp(date).len() as int)
        =~= compact_timestamp(date));
}

/// Split on `/`, a scope gives back the timestamp of its date, its region,
/// `s3` and `aws4_request`.
pub proof fn lemma_scope_fields(date: Civil, region: Seq<char>)
    requires
        !region.contains('/'),
    ensures
        split_on(scope_text(date, region), '/') == seq![
            compact_timestamp(date),
            region,
            "s3"@,
            "aws4_request"@,
        ],
{
    lemma_scope_suffix();
    lemma_timestamp_chars(date);
    let ts = compact_timestamp(date);
    let tail = "s3"@ + seq!['/'] + "aws4_request"@;
    assert(scope_text(date, region) =~= ts + seq!['/'] + (region + seq!['/'] + tail));
    lemma_split_plain("aws4_request"@, '/');
    lemma_split_join("s3"@, '/', "aws4_request"@);
    lemma_split_join(region, '/', tail);
    lemma_split_join(ts, '/', region + seq!['/'] + tail);
    assert(split_on(scope_text(date, region), '/') =~= seq![ts, region, "s3"@, "aws4_request"@]);
}

/// Distinct instants, or distinct regions, give distinct scopes: two times of
/// the same day never share a scope.
pub proof fn lemma_scope_injective(date_a: Civil, region_a: Seq<char>, date_b: Civil, region_b: Seq<char>)
    requires
        valid_civil(date_a),
        valid_civil(date_b),
        scope_text(date_a, region_a) == scope_text(date_b, region_b),
    ensures
        date_a == date_b,
        region_a == region_b,
{
    let ta = compact_timestamp(date_a);
    let tb = compact_timestamp(date_b);
    let ra = region_a + "/s3/aws4_request"@;
    let rb = region_b + "/s3/aws4_request"@;
    lemma_timestamp_chars(date_a);
    lemma_timestamp_chars(date_b);
    assert(scope_text(date_a, region_a) =~= ta + seq!['/'] + ra);
    assert(scope_text(date_b, region_b) =~= tb + seq!['/'] + rb);
    lemma_split_join(ta, '/', ra);
    lemma_split_join(tb, '/', rb);
    assert((seq![ta] + split_on(ra, '/'))[0] == ta);
    assert((seq![tb] + split_on(rb, '/'))[0] == tb);
    assert(ta == tb);
    lemma_timestamp_injective(date_a, date_b);
    let s = scope_text(date_a, region_a);
    let k: int = ta.len() as int + 1;
    let n: int = "/s3/aws4_request"@.len() as int;
    assert(s.subrange(k, s.len() - n) =~= region_a);
    assert(s.subrange(k, s.len() - n) =~= region_b);
}

/// Split on newlines, a string to sign gives its four lines: the algorithm,
/// the `%Y%m%dT%H%M%SZ` text of the date, the scope, and the hex digest of the
/// canonical request. So the timestamp line is the text that begins the scope.
pub proof fn lemma_string_to_sign_lines(date: Civil, canonical_request: Seq<char>, region: Seq<char>)
    requires
        !region.contains('\n'),
    ensures
        split_newlines(string_to_sign_text(date, canonical_request, region)) == seq![
            "AWS4-HMAC-SHA256"@,
            compact_timestamp(date),
            scope_text(date, region),
            hex_lower(sha256_digest(encode_utf8(canonical_request))),
        ],
{
    reveal_strlit("AWS4-HMAC-SHA256");
    let alg = "AWS4-HMAC-SHA256"@;
    assert(!alg.contains('\n'));
    let ts = compact_timestamp(date);
    let sc = scope_text(date, region);
    let hex = hex_lower(sha256_digest(encode_utf8(canonical_request)));
    lemma_timestamp_chars(date);
    lemma_scope_suffix();
    lemma_concat_lacks(ts, seq!['/'], '\n');
    lemma_concat_lacks(ts + seq!['/'], region, '\n');
    lemma_concat_lacks(ts + seq!['/'] + region, "/s3/aws4_request"@, '\n');
    lemma_hex_lower_shape(sha256_digest(encode_utf8(canonical_request)));
    if hex.contains('\n') {
        let i = choose|i: int| 0 <= i < hex.len() && hex[i] == '\n';
        assert(is_lower_hex_char(hex[i]));
    }
    assert(string_to_sign_text(date, canonical_request, region) =~= alg + seq!['\n'] + (ts + seq![
        '\n',
    ] + (sc + seq!['\n'] + hex)));
    lemma_split_plain(hex, '\n');
    lemma_split_join(sc, '\n', hex);
    lemma_split_join(ts, '\n', sc + seq!['\n'] + hex);
    lemma_split_join(alg, '\n', ts + seq!['\n'] + (sc + seq!['\n'] + hex));
    assert(split_newlines(string_to_sign_text(date, canonical_request, region)) =~= seq![
        alg,
        ts,
        sc,
        hex,
    ]);
}

/// The signing key is a chain of HMACs keyed first by `AWS` and the secret,
/// over the `/`-separated fields of the scope in order: the date's full
/// timestamp, the region, `s3`, `aws4_request`. The signature is the hex HMAC
/// of the string to sign under that key.
pub proof fn lemma_signature_follows_scope(
    secret_key: Seq<char>,
    date: Civil,
    region: Seq<char>,
    string_to_sign: Seq<char>,
)
    requires
        !region.contains('/'),
    ensures
        ({
            let fields = split_on(scope_text(date, region), '/');
            &&& fields.len() == 4
            &&& fields[0] == compact_timestamp(date)
            &&& signing_key(secret_key, date, region) == hmac_sha256_tag(
                hmac_sha256_tag(
                    hmac_sha256_tag(
                        hmac_sha256_tag(encode_utf8("AWS"@ + secret_key), encode_utf8(fields[0])),
                        encode_utf8(fields[1]),
                    ),
                    encode_utf8(fields[2]),
                ),
                encode_utf8(fields[3]),
            )
            &&& signature_text(secret_key, date, region, string_to_sign) == hex_lower(
                hmac_sha256_tag(
                    hmac_sha256_tag(
                        hmac_sha256_tag(
                            hmac_sha256_tag(
                                hmac_sha256_tag(encode_utf8("AWS"@ + secret_key), encode_utf8(fields[0])),
                                encode_utf8(fields[1]),
                            ),
                            encode_utf8(fields[2]),
                        ),
                        encode_utf8(fields[3]),
                    ),
                    encode_utf8(string_to_sign),
                ),
            )
        }),
{
    lemma_scope_fields(date, region);
}

/// Whatever the parts hold, newlines included, a canonical request is the six
/// parts in order with exactly one newline between each two: each part sits
/// at its offset, a newline follows each of the first five, and nothing else
/// is added.
pub proof fn lemma_canonical_request_layout(
    http_method: Seq<char>,
    canonical_uri: Seq<char>,
    canonical_query_string: Seq<char>,
    canonical_headers: Seq<char>,
    signed_headers: Seq<char>,
    hashed_payload: Seq<char>,
)
    ensures
        ({
            let t = canonical_request_text(
                http_method,
                canonical_uri,
                canonical_query_string,
                canonical_headers,
                signed_headers,
                hashed_payload,
            );
            let e0 = http_method.len() as int;
            let e1 = e0 + 1 + canonical_uri.len();
            let e2 = e1 + 1 + canonical_query_string.len();
            let e3 = e2 + 1 + canonical_headers.len();
            let e4 = e3 + 1 + signed_headers.len();
            &&& t.len() == e4 + 1 + hashed_payload.len()
            &&& t.subrange(0, e0) == http_method
            &&& t[e0] == '\n'
            &&& t.subrange(e0 + 1, e1) == canonical_uri
            &&& t[e1] == '\n'
            &&& t.subrange(e1 + 1, e2) == canonical_query_string
            &&& t[e2] == '\n'
            &&& t.subrange(e2 + 1, e3) == canonical_headers
            &&& t[e3] == '\n'
            &&& t.subrange(e3 + 1, e4) == signed_headers
            &&& t[e4] == '\n'
            &&& t.subrange(e4 + 1, t.len() as int) == hashed_payload
        }),
{
    let t = canonical_request_text(
        http_method,
        canonical_uri,
        canonical_query_string,
        canonical_headers,
        signed_headers,
        hashed_payload,
    );
    let e0 = http_method.len() as int;
    let e1 = e0 + 1 + canonical_uri.len();
    let e2 = e1 + 1 + canonical_query_string.len();
    let e3 = e2 + 1 + canonical_headers.len();
    let e4 = e3 + 1 + signed_headers.len();
    assert(t.subrange(0, e0) =~= http_method);
    assert(t.subrange(e0 + 1, e1) =~= canonical_uri);
    assert(t.subrange(e1 + 1, e2) =~= canonical_query_string);
    assert(t.subrange(e2 + 1, e3) =~= canonical_headers);
    assert(t.subrange(e3 + 1, e4) =~= signed_headers);
    assert(t.subrange(e4 + 1, t.len() as int) =~= hashed_payload);
}

} // verus!
