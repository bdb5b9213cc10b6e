use vstd::prelude::*;
use vstd::utf8::{decode_utf8, valid_utf8};

verus! {

/// How one execution of a candidate input is classified.
///
/// `Crash` covers both an abnormal target termination and a semantic
/// divergence between the two targets; `Timeout` is reported by the
/// execution context when the configured deadline passed. Neither halts the
/// run: both are recorded as data and fuzzing continues.
#[derive(Clone, Copy, Debug, PartialEq, Eq, Structural)]
pub enum Outcome {
    Normal,
    Crash,
    Timeout,
}

/// What the first target (the `serde_json` parser) said of an input string:
/// `None` when it accepted the input, otherwise the bytes of its error
/// message. The result depends on the characters of the input alone.
pub uninterp spec fn serde_verdict(s: Seq<char>) -> Option<Seq<u8>>;

/// Whether the second target (the `json` parser) accepts an input string.
/// The result depends on the characters of the input alone.
pub uninterp spec fn json_accepts(s: Seq<char>) -> bool;

/// Relies on serde_json::from_str::<serde_json::Value>: whether it returns
/// `Ok` is a pure function of the input text, as is (through the `Display`
/// impl of serde_json::Error) the message of the error it returns.
#[verifier::external_body]
fn serde_check(s: &str) -> (r: Option<Vec<u8>>)
    ensures
        match r {
            Some(m) => serde_verdict(s@) == Some(m@),
            None => serde_verdict(s@) is None,
        },
{
    match serde_json::from_str::<serde_json::Value>(s) {
        Ok(_) => None,
        Err(e) => Some(e.to_string().into_bytes()),
    }
}

/// Relies on json::parse: whether it returns `Ok` is a pure function of the
/// input text.
#[verifier::external_body]
fn json_check(s: &str) -> (r: bool)
    ensures
        r == json_accepts(s@),
{
    json::parse(s).is_ok()
}

/// Relies on core::str::from_utf8: it returns `Ok` exactly on valid UTF-8,
/// and the returned string slice decodes those bytes.
#[verifier::external_body]
fn decode_input(b: &[u8]) -> (r: Option<&str>)
    ensures
        match r {
            Some(s) => valid_utf8(b@) && s@ == decode_utf8(b@),
            None => !valid_utf8(b@),
        },
{
    core::str::from_utf8(b).ok()
}

/// `needle` occurs in `hay` starting at position `k`.
pub open spec fn spec_contains_at(hay: Seq<u8>, needle: Seq<u8>, k: int) -> bool {
    0 <= k && k + needle.len() <= hay.len() && hay.subrange(k, k + needle.len() as int) == needle
}

/// `needle` occurs somewhere in `hay`.
pub open spec fn spec_contains(hay: Seq<u8>, needle: Seq<u8>) -> bool {
    exists|k: int| spec_contains_at(hay, needle, k)
}

/// Substring search over bytes.
pub fn contains_bytes(hay: &Vec<u8>, needle: &Vec<u8>) -> (r: bool)
    ensures
        r == spec_contains(hay@, needle@),
{
    if needle.len() > hay.len() {
        return false;
    }
    if needle.len() == 0 {
        proof {
            assert(spec_contains_at(hay@, needle@, 0)) by {
                assert(hay@.subrange(0, 0) =~= needle@);
            }
        }
        return true;
    }
    let bound = hay.len() - needle.len();
    let mut k: usize = 0;
    while k <= bound
        invariant
            hay@.len() <= usize::MAX,
            0 < needle@.len() <= hay@.len(),
            bound == hay@.len() - needle@.len(),
            k <= bound + 1,
            forall|j: int| 0 <= j < k ==> !spec_contains_at(hay@, needle@, j),
        decreases bound + 1 - k,
    {
        let mut m: usize = 0;
        let mut mismatch = false;
        while m < needle.len() && !mismatch
            invariant
                hay@.len() <= usize::MAX,
                k + needle@.len() <= hay@.len(),
                m <= needle@.len(),
                !mismatch ==> forall|j: int| 0 <= j < m ==> hay@[k + j] == needle@[j],
                mismatch ==> !spec_contains_at(hay@, needle@, k as int),
            decreases needle@.len() - m + (if mismatch { 0int } else { 1int }),
        {
            if hay[k + m] != needle[m] {
                proof {
                    let sub = hay@.subrange(k as int, k + needle@.len() as int);
                    assert(sub[m as int] == hay@[k + m]);
                }
                mismatch = true;
            } else {
                m = m + 1;
            }
        }
        if !mismatch {
            proof {
                assert(hay@.subrange(k as int, k + needle@.len() as int) =~= needle@);
                assert(spec_contains_at(hay@, needle@, k as int));
            }
            return true;
        }
        k = k + 1;
    }
    proof {
        assert(forall|j: int| spec_contains_at(hay@, needle@, j) ==> 0 <= j <= bound);
    }
    false
}

/// The benign-divergence marker: the bytes of the phrase serde_json puts in
/// its error message when a numeric literal exceeds its supported range
/// ("number out of range").
pub open spec fn out_of_range_msg() -> Seq<u8> {
    seq![
        110u8,
        117u8,
        109u8,
        98u8,
        101u8,
        114u8,
        32u8,
        111u8,
        117u8,
        116u8,
        32u8,
        111u8,
        102u8,
        32u8,
        114u8,
        97u8,
        110u8,
        103u8,
        101u8,
    ]
}

pub fn out_of_range_needle() -> (r: Vec<u8>)
    ensures
        r@ == out_of_range_msg(),
{
    let mut v: Vec<u8> = Vec::new();
    v.push(110);
    v.push(117);
    v.push(109);
    v.push(98);
    v.push(101);
    v.push(114);
    v.push(32);
    v.push(111);
    v.push(117);
    v.push(116);
    v.push(32);
    v.push(111);
    v.push(102);
    v.push(32);
    v.push(114);
    v.push(97);
    v.push(110);
    v.push(103);
    v.push(101);
    proof {
        assert(v@ =~= out_of_range_msg());
    }
    v
}

/// A rejection is a whitelisted (benign) divergence when the rejecting
/// target's message names the known discrepancy class.
pub open spec fn spec_whitelisted(msg: Seq<u8>) -> bool {
    spec_contains(msg, out_of_range_msg())
}

pub fn is_whitelisted(msg: &Vec<u8>) -> (r: bool)
    ensures
        r == spec_whitelisted(msg@),
{
    let needle = out_of_range_needle();
    contains_bytes(msg, &needle)
}

/// The oracle's comparison rule, over the two targets' verdicts.
///
/// Agreement (both accept, or both reject) is `Normal`. A disagreement is a
/// semantic divergence and classifies as `Crash`, unless the whitelist
/// policy is on and the rejecting side's message names the known benign
/// discrepancy class (a numeric literal out of one target's range).
pub open spec fn spec_classify(
    serde_msg: Option<Seq<u8>>,
    json_ok: bool,
    whitelist_out_of_range: bool,
) -> Outcome {
    match serde_msg {
        None => if json_ok {
            Outcome::Normal
        } else {
            Outcome::Crash
        },
        Some(m) => if !json_ok {
            Outcome::Normal
        } else if whitelist_out_of_range && spec_whitelisted(m) {
            Outcome::Normal
        } else {
            Outcome::Crash
        },
    }
}

/// Classify a pair of target verdicts. `serde_msg` is `None` when the first
/// target accepted, else its error message; `json_ok` says whether the
/// second target accepted; `whitelist_out_of_range` is the oracle's policy
/// parameter for the known benign discrepancy class.
pub fn classify(serde_msg: &Option<Vec<u8>>, json_ok: bool, whitelist_out_of_range: bool) -> (r:
    Outcome)
    ensures
        r == spec_classify(
            match serde_msg {
                Some(m) => Some(m@),
                None => None,
            },
            json_ok,
            whitelist_out_of_range,
        ),
{
    match serde_msg {
        None => if json_ok {
            Outcome::Normal
        } else {
            Outcome::Crash
        },
        Some(m) => if !json_ok {
            Outcome::Normal
        } else if whitelist_out_of_range && is_whitelisted(m) {
            Outcome::Normal
        } else {
            Outcome::Crash
        },
    }
}

/// What one oracle invocation observed of the two targets.
pub struct OracleReport {
    /// The input was valid UTF-8, so both parsers ran on it. An input that
    /// is not a string is uninteresting to both targets and classifies as
    /// `Normal` without a parse.
    pub decoded: bool,
    /// `None` when the first target accepted, else its error message bytes.
    pub serde_error: Option<Vec<u8>>,
    /// Whether the second target accepted.
    pub json_accepted: bool,
}

/// The outcome the oracle owes for a given input under a given whitelist
/// policy.
pub open spec fn spec_oracle(input: Seq<u8>, whitelist_out_of_range: bool) -> Outcome {
    if !valid_utf8(input) {
        Outcome::Normal
    } else {
        spec_classify(
            serde_verdict(decode_utf8(input)),
            json_accepts(decode_utf8(input)),
            whitelist_out_of_range,
        )
    }
}

/// Execute one candidate input against both targets and classify the pair
/// of verdicts under the oracle's comparison rule.
pub fn run_oracle(input: &Vec<u8>, whitelist_out_of_range: bool) -> (r: (Outcome, OracleReport))
    ensures
        r.0 == spec_oracle(input@, whitelist_out_of_range),
        r.1.decoded == valid_utf8(input@),
        r.1.decoded ==> match r.1.serde_error {
            Some(m) => serde_verdict(decode_utf8(input@)) == Some(m@),
            None => serde_verdict(decode_utf8(input@)) is None,
        },
        r.1.decoded ==> r.1.json_accepted == json_accepts(decode_utf8(input@)),
        !r.1.decoded ==> r.1.serde_error is None && !r.1.json_accepted,
{
    match decode_input(input.as_slice()) {
        Some(s) => {
            let serde_error = serde_check(s);
            let json_accepted = json_check(s);
            let outcome = classify(&serde_error, json_accepted, whitelist_out_of_range);
            (outcome, OracleReport { decoded: true, serde_error, json_accepted })
        },
        None => (
            Outcome::Normal,
            OracleReport { decoded: false, serde_error: None, json_accepted: false },
        ),
    }
}

} // verus!
