//! The share link: one string that holds where a document lives on the DHT
//! and the key that opens it.
//!
//! Format: `<record key>#<base64url-nopad(encryption key)>`.
use vstd::prelude::*;

use base64::engine::general_purpose::URL_SAFE_NO_PAD;
use base64::Engine;

use crate::error::LinkError;

verus! {

// ---------------------------------------------------------------------------
// What base64 computes
// ---------------------------------------------------------------------------

/// The character of the URL-safe base64 alphabet (RFC 4648, section 5) for
/// a 6-bit value: `A-Z`, `a-z`, `0-9`, `-`, `_`.
pub open spec fn base64url_digit(v: int) -> char {
    if v < 26 {
        (65 + v) as char
    } else if v < 52 {
        (97 + v - 26) as char
    } else if v < 62 {
        (48 + v - 52) as char
    } else if v == 62 {
        '-'
    } else {
        '_'
    }
}

/// Unpadded URL-safe base64 of `bytes` (RFC 4648, sections 5 and 3.2): each
/// group of three bytes becomes four characters of six bits each; a last
/// group of one or two bytes becomes two or three characters, its spare low
/// bits zero.
pub open spec fn base64url_encode(bytes: Seq<u8>) -> Seq<char>
    decreases bytes.len(),
{
    let b0 = bytes[0] as int;
    let b1 = bytes[1] as int;
    let b2 = bytes[2] as int;
    if bytes.len() == 0 {
        Seq::empty()
    } else if bytes.len() == 1 {
        seq![base64url_digit(b0 / 4), base64url_digit((b0 % 4) * 16)]
    } else if bytes.len() == 2 {
        seq![base64url_digit(b0 / 4), base64url_digit((b0 % 4) * 16 + b1 / 16), base64url_digit((b1 % 16) * 4)]
    } else {
        seq![
            base64url_digit(b0 / 4),
            base64url_digit((b0 % 4) * 16 + b1 / 16),
            base64url_digit((b1 % 16) * 4 + b2 / 64),
            base64url_digit(b2 % 64),
        ] + base64url_encode(bytes.subrange(3, bytes.len() as int))
    }
}

/// What `URL_SAFE_NO_PAD.decode` returns for `text`: the decoded bytes, or
/// `None` when the text is not valid unpadded base64url.
pub uninterp spec fn base64url_decode(text: Seq<char>) -> Option<Seq<u8>>;

/// A character of the URL-safe base64 alphabet (RFC 4648, section 5).
pub open spec fn is_base64url_char(c: char) -> bool {
    ||| ('A' <= c && c <= 'Z')
    ||| ('a' <= c && c <= 'z')
    ||| ('0' <= c && c <= '9')
    ||| c == '-'
    ||| c == '_'
}

/// Every character of `text` is in the URL-safe base64 alphabet.
pub open spec fn is_base64url_text(text: Seq<char>) -> bool {
    forall|i: int| 0 <= i < text.len() ==> is_base64url_char(#[trigger] text[i])
}

/// The error type of the `base64` crate's decoder.
#[verifier::external_type_specification]
#[verifier::external_body]
pub struct ExDecodeError(base64::DecodeError);

/// Calls `URL_SAFE_NO_PAD.encode` (base64 0.22) on a 32-byte key: the
/// unpadded URL-safe base64 of the key. Decoding it with the same engine
/// gives back the key.
#[verifier::external_body]
fn base64url_encode_key(bytes: &[u8; 32]) -> (res: String)
    ensures
        res@ == base64url_encode(bytes@),
        base64url_decode(res@) == Some(bytes@),
{
    URL_SAFE_NO_PAD.encode(bytes)
}

/// Calls `URL_SAFE_NO_PAD.decode` (base64 0.22) on a string: the decoded bytes,
/// or the decoder's error when the text is not valid unpadded base64url.
#[verifier::external_body]
fn base64url_decode_str(text: &str) -> (res: Result<Vec<u8>, base64::DecodeError>)
    ensures
        res is Ok <==> base64url_decode(text@) is Some,
        res matches Ok(bytes) ==> base64url_decode(text@) == Some(bytes@),
{
    URL_SAFE_NO_PAD.decode(text)
}

/// Base64 of `bytes` has four characters per whole group of three bytes and
/// two or three for a last partial group, all of the URL-safe alphabet.
pub proof fn lemma_base64url_encode_shape(bytes: Seq<u8>)
    ensures
        base64url_encode(bytes).len() == 4 * (bytes.len() / 3) + (if bytes.len() % 3 == 0 {
            0int
        } else {
            bytes.len() % 3 + 1int
        }),
        is_base64url_text(base64url_encode(bytes)),
    decreases bytes.len(),
{
    if bytes.len() >= 3 {
        lemma_base64url_encode_shape(bytes.subrange(3, bytes.len() as int));
    }
    lemma_digit_bounds(bytes);
    let e = base64url_encode(bytes);
    assert forall|i: int| 0 <= i < e.len() implies is_base64url_char(#[trigger] e[i]) by {
        if bytes.len() >= 3 && i >= 4 {
            assert(e[i] == base64url_encode(bytes.subrange(3, bytes.len() as int))[i - 4]);
        }
    }
}

/// Every digit the encoding uses is a 6-bit value, so it is a character of
/// the alphabet.
proof fn lemma_digit_bounds(bytes: Seq<u8>)
    ensures
        forall|v: int| 0 <= v < 64 ==> is_base64url_char(#[trigger] base64url_digit(v)),
{
}

// ---------------------------------------------------------------------------
// Link grammar
// ---------------------------------------------------------------------------

/// Index of the last occurrence of `c` in `s`.
pub open spec fn last_index_of(s: Seq<char>, c: char) -> Option<int>
    decreases s.len(),
{
    if s.len() == 0 {
        None
    } else if s.last() == c {
        Some(s.len() - 1)
    } else {
        last_index_of(s.drop_last(), c)
    }
}

/// The share link text of a record key and an encryption key.
pub open spec fn share_link_text(record_key: Seq<char>, key: Seq<u8>) -> Seq<char> {
    record_key + seq!['#'] + base64url_encode(key)
}

/// What decoding a share link yields: the text before the last `#` as the
/// record key and the base64url text after it as the 32-byte encryption key,
/// or the first way in which the link is malformed.
pub open spec fn parse_share_link(s: Seq<char>) -> Result<(Seq<char>, Seq<u8>), LinkError> {
    match last_index_of(s, '#') {
        None => Err(LinkError::MissingSeparator),
        Some(i) => match base64url_decode(s.subrange(i + 1, s.len() as int)) {
            None => Err(LinkError::InvalidBase64),
            Some(bytes) => if bytes.len() == 32 {
                Ok((s.subrange(0, i), bytes))
            } else {
                Err(LinkError::WrongKeyLength { len: bytes.len() as usize })
            },
        },
    }
}

/// `last_index_of` finds the last occurrence: the character there is `c` and
/// none after it is; `None` means `c` does not occur.
proof fn lemma_last_index_of(s: Seq<char>, c: char)
    ensures
        last_index_of(s, c) matches Some(i) ==> 0 <= i < s.len() && s[i] == c && forall|j: int|
            i < j < s.len() ==> s[j] != c,
        last_index_of(s, c) is None ==> forall|j: int| 0 <= j < s.len() ==> s[j] != c,
    decreases s.len(),
{
    if s.len() > 0 && s.last() != c {
        let t = s.drop_last();
        lemma_last_index_of(t, c);
        assert forall|j: int| 0 <= j < t.len() implies t[j] == s[j] by {}
        if let Some(i) = last_index_of(t, c) {
            assert forall|j: int| i < j < s.len() implies s[j] != c by {
                if j < t.len() {
                    assert(t[j] != c);
                }
            }
        } else {
            assert forall|j: int| 0 <= j < s.len() implies s[j] != c by {
                if j < t.len() {
                    assert(t[j] != c);
                }
            }
        }
    }
}

/// A suffix free of `c` does not move the last occurrence of `c` found before it.
proof fn lemma_last_index_of_append(a: Seq<char>, c: char, b: Seq<char>)
    requires
        forall|j: int| 0 <= j < b.len() ==> b[j] != c,
    ensures
        last_index_of(a.push(c) + b, c) == Some(a.len() as int),
    decreases b.len(),
{
    if b.len() == 0 {
        assert(a.push(c) + b =~= a.push(c));
    } else {
        assert((a.push(c) + b).drop_last() =~= a.push(c) + b.drop_last());
        lemma_last_index_of_append(a, c, b.drop_last());
    }
}

/// The payload of a share link: where the document lives and how to open it.
#[derive(Debug, Clone)]
pub struct SharePayload {
    /// Text of the DHT record key that holds the document.
    pub record_key: String,
    /// The 256-bit secret that opens the document's chunks.
    pub encryption_key: [u8; 32],
}

impl SharePayload {
    /// Packs the payload into one string: `<record key>#<base64url(key)>`.
    /// Decoding that string gives the payload back.
    pub fn encode(&self) -> (link: String)
        ensures
            link@ == share_link_text(self.record_key@, self.encryption_key@),
            link@.len() == self.record_key@.len() + 44,
            link@[self.record_key@.len() as int] == '#',
            is_base64url_text(link@.subrange(self.record_key@.len() + 1int, link@.len() as int)),
            parse_share_link(link@) == Ok::<(Seq<char>, Seq<u8>), LinkError>((self.record_key@, self.encryption_key@)),
    {
        let key_b64 = base64url_encode_key(&self.encryption_key);
        let mut link = self.record_key.clone();
        link.append("#");
        link.append(key_b64.as_str());
        proof {
            reveal_strlit("#");
            lemma_base64url_encode_shape(self.encryption_key@);
            let rk = self.record_key@;
            let b = key_b64@;
            assert(link@ =~= rk.push('#') + b);
            lemma_last_index_of_append(rk, '#', b);
            assert(link@.subrange(rk.len() + 1int, link@.len() as int) =~= b);
            assert(link@.subrange(0, rk.len() as int) =~= rk);
            assert(link@ =~= share_link_text(rk, self.encryption_key@));
        }
        link
    }

    /// Unpacks a share link: splits at the last `#`, decodes the base64url key
    /// and checks it is 32 bytes long. The record key text is kept as written.
    pub fn decode(s: &str) -> (res: Result<SharePayload, LinkError>)
        ensures
            parse_share_link(s@) matches Ok((rk, key)) ==> (res matches Ok(p) && p.record_key@ == rk && p.encryption_key@ == key),
            parse_share_link(s@) matches Err(e) ==> res == Err::<SharePayload, LinkError>(e),
    {
        let n: usize = s.unicode_len();
        let mut i: usize = n;
        let mut sep: Option<usize> = None;
        while i > 0
            invariant_except_break
                sep is None,
            invariant
                i <= n,
                n == s@.len(),
                forall|j: int| i <= j < n ==> s@[j] != '#',
            ensures
                sep matches Some(k) ==> k < n && s@[k as int] == '#' && forall|j: int| k < j < n ==> s@[j] != '#',
                sep is None ==> forall|j: int| 0 <= j < n ==> s@[j] != '#',
            decreases i,
        {
            if s.get_char(i - 1) == '#' {
                sep = Some(i - 1);
                break;
            }
            i = i - 1;
        }
        proof {
            lemma_last_index_of(s@, '#');
        }
        let idx: usize = match sep {
            None => {
                return Err(LinkError::MissingSeparator);
            },
            Some(idx) => idx,
        };
        proof {
            if last_index_of(s@, '#') is None {
                assert(s@[idx as int] != '#');
            }
            let li: int = last_index_of(s@, '#')->Some_0;
            if li < idx {
                assert(s@[idx as int] != '#');
            } else if li > idx {
                assert(s@[li] != '#');
            }
        }
        assert(last_index_of(s@, '#') == Some(idx as int));
        let rk_str = s.substring_char(0, idx);
        let key_b64 = s.substring_char(idx + 1, n);
        let key_bytes = match base64url_decode_str(key_b64) {
            Ok(bytes) => bytes,
            Err(_) => {
                return Err(LinkError::InvalidBase64);
            },
        };
        if key_bytes.len() != 32 {
            return Err(LinkError::WrongKeyLength { len: key_bytes.len() });
        }
        let mut encryption_key = [0u8; 32];
        let mut k: usize = 0;
        while k < 32
            invariant
                k <= 32,
                key_bytes@.len() == 32,
                encryption_key@.len() == 32,
                forall|j: int| 0 <= j < k ==> encryption_key@[j] == key_bytes@[j],
            decreases 32 - k,
        {
            encryption_key[k] = key_bytes[k];
            k = k + 1;
        }
        assert(encryption_key@ =~= key_bytes@);
        Ok(SharePayload { record_key: rk_str.to_owned(), encryption_key })
    }
}

} // verus!
