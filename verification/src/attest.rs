//! Remote-attestation support: trusted wrappers around the quote-verification
//! library, and the verified resolution of a measurement register against a
//! code-identity manifest.
//!
//! A manifest is a sequence of fixed-width records, concatenated without
//! separators. Each record is 224 characters: a 96-character measurement
//! (the hex form of a 48-byte register), then two 64-character code-identity
//! hashes — the API image and the App image. The first record whose
//! measurement equals the register resolves it; a manifest whose length is
//! not a multiple of 224 resolves nothing.

use vstd::prelude::*;
use vstd::string::StrSliceExecFns;

verus! {

/// Characters in one manifest record.
pub const RECORD_LEN: usize = 224;

/// Characters in the measurement field of a record.
pub const MEASUREMENT_LEN: usize = 96;

/// Characters in each code-identity hash field of a record.
pub const CODEHASH_LEN: usize = 64;

/// What `String::from_utf8_lossy` yields: a function of the bytes alone.
pub uninterp spec fn lossy_of(b: Seq<u8>) -> Seq<char>;

/// Relies on String::from_utf8_lossy: the result depends on the bytes alone,
/// and ASCII bytes come through as their own characters.
#[verifier::external_body]
pub(crate) fn utf8_lossy(b: &Vec<u8>) -> (r: String)
    ensures
        r@ == lossy_of(b@),
        (forall|i: int| 0 <= i < b@.len() ==> b@[i] < 128) ==> r@ == b@.map_values(
            |x: u8| (x as char),
        ),
{
    String::from_utf8_lossy(b).into_owned()
}

/// What attestation yields for a quote, a collateral text and a time: None,
/// or the TD10 report's report_data and rt_mr3 register. Collateral parsing
/// and quote verification read no clock, randomness or environment, so the
/// result is a function of these three inputs alone.
pub uninterp spec fn quote_report_of(quote: Seq<u8>, collateral: Seq<char>, now: u64) -> Option<
    (Seq<u8>, Seq<u8>),
>;

/// Relies on serde_json::from_str (with dcap_qvl's QuoteCollateralV3
/// Deserialize impl) and dcap_qvl::verify::verify: parses the collateral and
/// cryptographically verifies the quote against it at the given time. The
/// outcome is the named one on every input; on success the pair is the TD10
/// report's 64-byte report_data and 48-byte rt_mr3.
#[verifier::external_body]
pub(crate) fn attest_quote(
    quote: &Vec<u8>,
    collateral: &str,
    now: u64,
) -> (r: Option<(Vec<u8>, Vec<u8>)>)
    ensures
        r is Some <==> quote_report_of(quote@, collateral@, now) is Some,
        r matches Some(p) ==> p.0@.len() == 64 && p.1@.len() == 48 && quote_report_of(
            quote@,
            collateral@,
            now,
        ) == Some((p.0@, p.1@)),
{
    let coll: dcap_qvl::QuoteCollateralV3 = match serde_json::from_str(collateral) {
        Ok(c) => c,
        Err(_) => return None,
    };
    match dcap_qvl::verify::verify(quote, &coll, now) {
        Ok(v) => match v.report.as_td10() {
            Some(td) => Some((td.report_data.to_vec(), td.rt_mr3.to_vec())),
            None => None,
        },
        Err(_) => None,
    }
}

/// How many records a manifest holds.
pub open spec fn record_count(t: Seq<char>) -> int {
    (t.len() as int) / (RECORD_LEN as int)
}

/// The measurement field of record `k`.
pub open spec fn record_measurement(t: Seq<char>, k: int) -> Seq<char> {
    t.subrange(224 * k, 224 * k + 96)
}

/// The API-image code-identity hash of record `k`.
pub open spec fn record_api(t: Seq<char>, k: int) -> Seq<char> {
    t.subrange(224 * k + 96, 224 * k + 160)
}

/// The App-image code-identity hash of record `k`.
pub open spec fn record_app(t: Seq<char>, k: int) -> Seq<char> {
    t.subrange(224 * k + 160, 224 * k + 224)
}

/// The first record at or after `k` whose measurement equals `mr`, reduced to
/// its two code-identity hashes.
pub open spec fn resolve_from(t: Seq<char>, mr: Seq<char>, k: int) -> Option<(Seq<char>, Seq<char>)>
    decreases record_count(t) - k,
{
    if k < 0 || k >= record_count(t) {
        None
    } else if record_measurement(t, k) == mr {
        Some((record_api(t, k), record_app(t, k)))
    } else {
        resolve_from(t, mr, k + 1)
    }
}

/// What a code-identity manifest resolves a measurement to, if anything.
pub open spec fn resolve_manifest(t: Seq<char>, mr: Seq<char>) -> Option<(Seq<char>, Seq<char>)> {
    if (t.len() as int) % (RECORD_LEN as int) == 0 {
        resolve_from(t, mr, 0)
    } else {
        None
    }
}

/// Character-for-character string equality.
pub(crate) fn str_eq_chars(a: &str, b: &str) -> (r: bool)
    ensures
        r == (a@ == b@),
{
    let na = a.unicode_len();
    let nb = b.unicode_len();
    if na != nb {
        proof {
            if a@ == b@ {
                assert(a@.len() == b@.len());
            }
        }
        return false;
    }
    let mut i: usize = 0;
    while i < na
        invariant
            na == a@.len(),
            a@.len() == b@.len(),
            i <= na,
            forall|k: int| 0 <= k < i ==> a@[k] == b@[k],
        decreases na - i,
    {
        if a.get_char(i) != b.get_char(i) {
            proof {
                if a@ == b@ {
                    assert(a@[i as int] == b@[i as int]);
                }
            }
            return false;
        }
        i += 1;
    }
    proof {
        assert(a@ =~= b@);
    }
    true
}

/// Cross-reference a hex-encoded measurement register against a
/// code-identity manifest: the first matching record yields the API-image
/// and App-image hashes.
pub fn verify_codehash(tcb_info: &str, rtmr3: &str) -> (r: Option<(String, String)>)
    ensures
        r matches Some(p) ==> resolve_manifest(tcb_info@, rtmr3@) == Some::<(Seq<char>, Seq<char>)>(
            (p.0@, p.1@),
        ),
        r is None ==> resolve_manifest(tcb_info@, rtmr3@) is None,
{
    let n = tcb_info.unicode_len();
    if n % RECORD_LEN != 0 {
        return None;
    }
    let cnt = n / RECORD_LEN;
    proof {
        assert(cnt * RECORD_LEN <= n && cnt == record_count(tcb_info@)) by (nonlinear_arith)
            requires
                cnt == n / RECORD_LEN,
                n % RECORD_LEN == 0,
                RECORD_LEN == 224,
                n == tcb_info@.len(),
                cnt == record_count(tcb_info@),
        ;
    }
    let mut k: usize = 0;
    while k < cnt
        invariant
            n == tcb_info@.len(),
            n % RECORD_LEN == 0,
            cnt == record_count(tcb_info@),
            cnt * 224 <= n,
            k <= cnt,
            resolve_from(tcb_info@, rtmr3@, 0) == resolve_from(tcb_info@, rtmr3@, k as int),
        decreases cnt - k,
    {
        proof {
            assert(224 * (k as int) + 224 <= 224 * (cnt as int)) by (nonlinear_arith)
                requires
                    k < cnt,
            ;
            assert(cnt * 224 == 224 * (cnt as int));
        }
        let base = k * RECORD_LEN;
        let seg = tcb_info.substring_char(base, base + MEASUREMENT_LEN);
        if str_eq_chars(seg, rtmr3) {
            let api = tcb_info.substring_char(base + MEASUREMENT_LEN, base + MEASUREMENT_LEN
                + CODEHASH_LEN);
            let app = tcb_info.substring_char(
                base + MEASUREMENT_LEN + CODEHASH_LEN,
                base + RECORD_LEN,
            );
            proof {
                assert(base == 224 * (k as int)) by (nonlinear_arith)
                    requires
                        base == k * 224,
                ;
                assert(record_measurement(tcb_info@, k as int) == rtmr3@);
            }
            return Some((api.to_owned(), app.to_owned()));
        }
        proof {
            assert(base == 224 * (k as int)) by (nonlinear_arith)
                requires
                    base == k * 224,
            ;
            assert(record_measurement(tcb_info@, k as int) != rtmr3@);
        }
        k += 1;
    }
    None
}

} // verus!
