//! Turning a clip's metadata into download candidates, and choosing the best one.

use vstd::prelude::*;
use vstd::utf8::encode_utf8;

use crate::encoding::{
    is_encoded_char, lemma_percent_round_trip, percent_decoded, percent_encode_str, percent_encoded,
};
use crate::error::FetchError;

verus! {

/// The metadata that the remote service returns for one clip.
pub struct VideoSourceResponse {
    pub data: Data,
    pub extensions: Extensions,
}

/// The body of the metadata answer.
pub struct Data {
    pub clip: Clip,
}

/// The playback token and the renditions of one clip.
pub struct Clip {
    pub playback_access_token: PlaybackAccessToken,
    pub video_qualities: Vec<VideoQuality>,
}

/// One rendition: its quality label, its frame rate rounded to the nearest whole
/// number, and the address of its file without the token.
pub struct VideoQuality {
    pub quality: String,
    pub frame_rate: u32,
    pub source_url: String,
}

/// The signature and value that grant access to a clip's files.
pub struct PlaybackAccessToken {
    pub signature: String,
    pub value: String,
}

/// Bookkeeping that the service sends along with the metadata.
pub struct Extensions {
    pub duration_milliseconds: i32,
    pub operation_name: String,
    pub request_id: String,
}

/// A downloadable rendition of a clip.
#[derive(Debug, PartialEq, Eq)]
pub struct SourceFile {
    pub quality: u32,
    pub frame_rate: u32,
    pub url: String,
}

impl SourceFile {
    /// The address of the file, as text.
    pub fn to_string(&self) -> (text: String)
        ensures
            text@ == self.url@,
    {
        self.url.clone()
    }
}

/// std's `ParseIntError`, carried opaquely out of `parse_u32` and mapped there.
#[verifier::external_type_specification]
#[verifier::external_body]
pub struct ExParseIntError(std::num::ParseIntError);

/// url's `ParseError`, carried opaquely out of `parse_url` and mapped there.
#[verifier::external_type_specification]
#[verifier::external_body]
pub struct ExUrlParseError(url::ParseError);

pub open spec fn is_digit(c: char) -> bool {
    '0' <= c <= '9'
}

/// The number that a string of decimal digits stands for.
pub open spec fn digits_value(digits: Seq<char>) -> int
    decreases digits.len(),
{
    if digits.len() == 0 {
        0
    } else {
        digits_value(digits.drop_last()) * 10 + (digits.last() as u32 - 0x30)
    }
}

/// An unsigned decimal number as `u32::from_str` reads it: an optional `+`, then one
/// or more digits and nothing else, with a value that fits in 32 bits.
pub open spec fn parsed_u32(text: Seq<char>) -> Option<u32> {
    let digits = if text.len() > 0 && text[0] == '+' {
        text.drop_first()
    } else {
        text
    };
    if digits.len() > 0 && (forall|i: int| 0 <= i < digits.len() ==> is_digit(#[trigger] digits[i]))
        && digits_value(digits) <= u32::MAX {
        Some(digits_value(digits) as u32)
    } else {
        None
    }
}

/// Relies on `str::parse::<u32>`: as its documentation says, an optional `+` sign
/// followed by ASCII digits only, with a value in range, is accepted, and nothing else.
#[verifier::external_body]
fn parse_u32(text: &str) -> (r: Result<u32, std::num::ParseIntError>)
    ensures
        match r {
            Ok(v) => parsed_u32(text@) == Some(v),
            Err(_) => parsed_u32(text@) is None,
        },
{
    text.parse::<u32>()
}

/// The serialization of the absolute URL that `text` parses as, if it parses.
pub uninterp spec fn url_parse(text: Seq<char>) -> Option<Seq<char>>;

/// Relies on url's `Url::parse` (which `Url::from_str` calls) and on
/// `String::from(Url)`, which hands back the parsed URL's serialization. Both depend
/// on the text alone.
#[verifier::external_body]
fn parse_url(text: &str) -> (r: Result<String, url::ParseError>)
    ensures
        match r {
            Ok(u) => url_parse(text@) == Some(u@),
            Err(_) => url_parse(text@) is None,
        },
{
    url::Url::parse(text).map(String::from)
}

/// `base?sig=<signature>&token=<token>`, the signature as it is and the token
/// percent-encoded.
pub open spec fn source_url_spec(base: Seq<char>, sig: Seq<char>, token: Seq<char>) -> Seq<char> {
    base + seq!['?', 's', 'i', 'g', '='] + sig + seq!['&', 't', 'o', 'k', 'e', 'n', '=']
        + percent_encoded(encode_utf8(token))
}

/// The address of a rendition's file, with the access token appended as a query.
pub fn source_url_text(base: &str, sig: &str, token: &str) -> (url: String)
    ensures
        url@ == source_url_spec(base@, sig@, token@),
{
    let encoded = percent_encode_str(token);
    let mut url = String::from_str(base);
    proof {
        reveal_strlit("?sig=");
        reveal_strlit("&token=");
    }
    url.append("?sig=");
    url.append(sig);
    url.append("&token=");
    url.append(encoded.as_str());
    url
}

/// In the address built for a rendition, the signature follows `?sig=` exactly as
/// given, and the token follows `&token=` percent-encoded: that part holds nothing
/// but ASCII letters, digits and `%`, and reads back as the token's UTF-8 bytes.
pub proof fn lemma_token_query(base: Seq<char>, sig: Seq<char>, token: Seq<char>)
    ensures
        ({
            let url = source_url_spec(base, sig, token);
            let sig_at: int = base.len() as int + 5;
            let token_at: int = sig_at + sig.len() + 7;
            &&& url.subrange(base.len() as int, sig_at) == seq!['?', 's', 'i', 'g', '=']
            &&& url.subrange(sig_at, sig_at + sig.len()) == sig
            &&& url.subrange(sig_at + sig.len(), token_at) == seq!['&', 't', 'o', 'k', 'e', 'n', '=']
            &&& url.subrange(token_at, url.len() as int) == percent_encoded(encode_utf8(token))
            &&& forall|k: int| token_at <= k < url.len() ==> is_encoded_char(#[trigger] url[k])
            &&& percent_decoded(url.subrange(token_at, url.len() as int)) == encode_utf8(token)
        }),
{
    let url = source_url_spec(base, sig, token);
    let enc = percent_encoded(encode_utf8(token));
    let sig_at: int = base.len() as int + 5;
    let token_at: int = sig_at + sig.len() + 7;
    lemma_percent_round_trip(encode_utf8(token));
    assert(url.subrange(base.len() as int, sig_at) == seq!['?', 's', 'i', 'g', '=']);
    assert(url.subrange(sig_at, sig_at + sig.len()) == sig);
    assert(url.subrange(sig_at + sig.len(), token_at) == seq!['&', 't', 'o', 'k', 'e', 'n', '=']);
    assert(url.subrange(token_at, url.len() as int) == enc);
    assert forall|k: int| token_at <= k < url.len() implies is_encoded_char(#[trigger] url[k]) by {
        assert(url[k] == enc[k - token_at]);
    }
}

/// Whether `i` is the position of a best candidate: none has a higher quality.
/// Among candidates that share the highest quality, any one is best.
pub open spec fn is_best_index(files: Seq<SourceFile>, i: int) -> bool {
    &&& 0 <= i < files.len()
    &&& forall|j: int| 0 <= j < files.len() ==> (#[trigger] files[j]).quality <= files[i].quality
}

/// The position of a candidate with the highest quality, or none for an empty
/// list. The frame rate plays no part, and no tie-break between equal qualities is
/// promised.
pub fn best_source_index(files: &Vec<SourceFile>) -> (r: Option<usize>)
    ensures
        match r {
            None => files@.len() == 0,
            Some(i) => is_best_index(files@, i as int),
        },
{
    if files.len() == 0 {
        return None;
    }
    let mut best: usize = 0;
    let mut i: usize = 1;
    while i < files.len()
        invariant
            1 <= i <= files@.len(),
            best < i,
            forall|j: int| 0 <= j < i ==> (#[trigger] files@[j]).quality <= files@[best as int].quality,
            forall|j: int| best < j < i ==> (#[trigger] files@[j]).quality < files@[best as int].quality,
        decreases files@.len() - i,
    {
        if files[i].quality >= files[best].quality {
            best = i;
        }
        i = i + 1;
    }
    Some(best)
}

/// The address of the best candidate, or `NoSourceFound` for an empty list.
pub fn best_source_url(files: &Vec<SourceFile>) -> (r: Result<String, FetchError>)
    ensures
        match r {
            Ok(url) => exists|i: int| is_best_index(files@, i) && url@ == (#[trigger] files@[i]).url@,
            Err(e) => e == FetchError::NoSourceFound && files@.len() == 0,
        },
{
    match best_source_index(files) {
        Some(i) => Ok(files[i].url.clone()),
        None => Err(FetchError::NoSourceFound),
    }
}

/// The candidate that a rendition gives, as (quality, frame rate, URL), or none
/// where its quality label is not a number or its URL does not parse.
pub open spec fn candidate_of(q: VideoQuality, sig: Seq<char>, token: Seq<char>) -> Option<
    (u32, u32, Seq<char>),
> {
    match (parsed_u32(q.quality@), url_parse(source_url_spec(q.source_url@, sig, token))) {
        (Some(v), Some(u)) => Some((v, q.frame_rate, u)),
        _ => None,
    }
}

/// Whether a source file holds exactly the candidate that a rendition gives.
pub open spec fn candidate_matches(f: SourceFile, c: Option<(u32, u32, Seq<char>)>) -> bool {
    c == Some((f.quality, f.frame_rate, f.url@))
}

/// Builds one candidate per rendition, in the order of the metadata. Fails with
/// `MalformedMetadata` exactly when some rendition gives no candidate.
pub fn format_source_urls(response: &VideoSourceResponse) -> (r: Result<Vec<SourceFile>, FetchError>)
    ensures
        ({
            let clip = response.data.clip;
            let qs = clip.video_qualities@;
            let sig = clip.playback_access_token.signature@;
            let token = clip.playback_access_token.value@;
            match r {
                Ok(files) => files@.len() == qs.len() && forall|i: int|
                    0 <= i < qs.len() ==> candidate_matches(
                        #[trigger] files@[i],
                        candidate_of(qs[i], sig, token),
                    ),
                Err(e) => e == FetchError::MalformedMetadata && exists|i: int|
                    0 <= i < qs.len() && (#[trigger] candidate_of(qs[i], sig, token)) is None,
            }
        }),
{
    let sig = &response.data.clip.playback_access_token.signature;
    let token = &response.data.clip.playback_access_token.value;
    let qualities = &response.data.clip.video_qualities;
    let mut output: Vec<SourceFile> = Vec::new();
    let mut i: usize = 0;
    while i < qualities.len()
        invariant
            qualities@ == response.data.clip.video_qualities@,
            sig@ == response.data.clip.playback_access_token.signature@,
            token@ == response.data.clip.playback_access_token.value@,
            i <= qualities@.len(),
            output@.len() == i,
            forall|j: int|
                0 <= j < i ==> candidate_matches(
                    #[trigger] output@[j],
                    candidate_of(qualities@[j], sig@, token@),
                ),
        decreases qualities@.len() - i,
    {
        let q = &qualities[i];
        let quality = match parse_u32(q.quality.as_str()) {
            Ok(v) => v,
            Err(_) => {
                assert(candidate_of(qualities@[i as int], sig@, token@) is None);
                return Err(FetchError::MalformedMetadata);
            },
        };
        let text = source_url_text(q.source_url.as_str(), sig.as_str(), token.as_str());
        let url = match parse_url(text.as_str()) {
            Ok(u) => u,
            Err(_) => {
                assert(candidate_of(qualities@[i as int], sig@, token@) is None);
                return Err(FetchError::MalformedMetadata);
            },
        };
        output.push(SourceFile { quality, frame_rate: q.frame_rate, url });
        i = i + 1;
    }
    Ok(output)
}

} // verus!
