//! The event protocol and the upstream message shapes.
//!
//! Producers hand the aggregator [`UpdateMessage`] events: one keyword match,
//! or the completion of a minute. The upstream feed's payloads are modelled
//! by [`StreamMessage`] and its record types; which update messages one
//! payload yields — one `NewTweet` per tracked keyword occurring in the raw
//! payload text — is decided here, over a verified substring search.

use vstd::prelude::*;

verus! {

/// One event for the aggregator: a keyword match, or a completed minute.
pub enum UpdateMessage {
    /// One match of the named tracked keyword.
    NewTweet(String),
    /// One completed minute-length period.
    NewMinute,
}

/// Upstream credentials, loaded at startup.
pub struct Credentials {
    pub api_key: String,
    pub api_secret: String,
    pub access_token: String,
    pub access_secret: String,
}

/// Startup configuration: the ordered tracked-keyword list, fixed for the
/// process lifetime, and the dashboard port.
pub struct Configuration {
    pub track_keys: Vec<String>,
    pub http_port: Option<String>,
}

/// The extended form of a tweet payload.
pub struct ExtendedTweet {
    pub full_text: String,
}

/// A tweet payload.
pub struct Tweet {
    pub id_str: String,
    pub text: String,
    pub extended_tweet: Option<ExtendedTweet>,
    pub lang: String,
}

/// The details of a stall warning payload.
pub struct WarningDetails {
    pub code: String,
    pub percent_full: i64,
}

/// A stall warning payload.
pub struct Warning {
    pub warning: WarningDetails,
}

/// The details of a rate-limit notice payload.
pub struct LimitDetails {
    pub track: i64,
    pub timestamp_ms: String,
}

/// A rate-limit notice payload.
pub struct Limit {
    pub limit: LimitDetails,
}

/// One upstream payload, already classified into the known shapes; anything
/// unrecognized is `Other`.
pub enum StreamMessage {
    Tweet(Tweet),
    Warning(Warning),
    Limit(Limit),
    Other,
}

/// The UTF-8 bytes of a string value.
pub open spec fn utf8_of(s: Seq<char>) -> Seq<u8> {
    vstd::utf8::encode_utf8(s)
}

/// `pat` occurs in `text` starting at byte position `i`.
pub open spec fn is_match_at(text: Seq<u8>, pat: Seq<u8>, i: int) -> bool {
    0 <= i && i + pat.len() <= text.len() && text.subrange(i, i + pat.len()) == pat
}

/// `pat` occurs somewhere in `text`.
pub open spec fn contains_seq(text: Seq<u8>, pat: Seq<u8>) -> bool {
    exists|i: int| is_match_at(text, pat, i)
}

/// Byte-level substring search.
fn contains_bytes(t: &[u8], p: &[u8]) -> (b: bool)
    ensures
        b == contains_seq(t@, p@),
{
    let n = t.len();
    let m = p.len();
    if m > n {
        proof {
            assert forall|i: int| !is_match_at(t@, p@, i) by {}
        }
        return false;
    }
    let mut i: usize = 0;
    while i <= n - m
        invariant
            m <= n <= t@.len(),
            t@.len() == n,
            p@.len() == m,
            i <= n - m + 1,
            forall|j: int| 0 <= j < i ==> !is_match_at(t@, p@, j),
        decreases n - m + 1 - i,
    {
        let mut j: usize = 0;
        while j < m && t[i + j] == p[j]
            invariant
                m <= n,
                i + m <= n,
                t@.len() == n,
                p@.len() == m,
                j <= m,
                forall|l: int| 0 <= l < j ==> t@[i + l] == p@[l],
            decreases m - j,
        {
            j += 1;
        }
        if j == m {
            proof {
                assert(t@.subrange(i as int, i + m) =~= p@);
                assert(is_match_at(t@, p@, i as int));
            }
            return true;
        }
        proof {
            assert(t@[i + j] != p@[j as int]);
            assert forall|q: int| q == i implies !is_match_at(t@, p@, q) by {
                if is_match_at(t@, p@, q) {
                    assert(t@.subrange(q, q + m)[j as int] == p@[j as int]);
                }
            }
        }
        i += 1;
    }
    proof {
        assert forall|q: int| !is_match_at(t@, p@, q) by {
            if 0 <= q <= n - m {
                assert(!is_match_at(t@, p@, q));
            }
        }
    }
    false
}

/// Substring search on strings, over their UTF-8 bytes. A byte-level match
/// of one well-formed string inside another is exactly a character-level
/// substring occurrence.
pub fn contains_str(text: &str, pat: &str) -> (b: bool)
    ensures
        b == contains_seq(utf8_of(text@), utf8_of(pat@)),
{
    contains_bytes(text.as_bytes(), pat.as_bytes())
}

/// The update messages a tweet payload with raw text `raw` yields: one
/// `NewTweet` per tracked key whose name occurs in `raw`, in key order.
pub open spec fn tweet_updates(raw: Seq<u8>, keys: Seq<String>) -> Seq<UpdateMessage>
    decreases keys.len(),
{
    if keys.len() == 0 {
        Seq::empty()
    } else {
        let rest = tweet_updates(raw, keys.drop_last());
        if contains_seq(raw, utf8_of(keys.last()@)) {
            rest.push(UpdateMessage::NewTweet(keys.last()))
        } else {
            rest
        }
    }
}

/// Decides what one upstream payload contributes to the aggregation: a tweet
/// yields one `NewTweet` per tracked key occurring in the raw payload text
/// (the payload is scanned whole, as the upstream tagging is not specific);
/// warnings, limit notices and unrecognized payloads yield nothing.
pub fn updates_for_message(message: &StreamMessage, raw: &str, track_keys: &Vec<String>) -> (r:
    Vec<UpdateMessage>)
    ensures
        match message {
            StreamMessage::Tweet(_) => r@ == tweet_updates(utf8_of(raw@), track_keys@),
            _ => r@ == Seq::<UpdateMessage>::empty(),
        },
{
    let mut r: Vec<UpdateMessage> = Vec::new();
    match message {
        StreamMessage::Tweet(_) => {
            let mut i: usize = 0;
            while i < track_keys.len()
                invariant
                    i <= track_keys@.len(),
                    r@ == tweet_updates(utf8_of(raw@), track_keys@.take(i as int)),
                decreases track_keys@.len() - i,
            {
                let key = &track_keys[i];
                if contains_str(raw, key.as_str()) {
                    r.push(UpdateMessage::NewTweet(key.clone()));
                }
                proof {
                    let taken = track_keys@.take(i + 1);
                    assert(taken.drop_last() =~= track_keys@.take(i as int));
                    assert(taken.last() == track_keys@[i as int]);
                }
                i += 1;
            }
            proof {
                assert(track_keys@.take(track_keys@.len() as int) =~= track_keys@);
            }
        },
        _ => {},
    }
    r
}

} // verus!
