//! The text form of what peers send each other: a tag, a delimiter and a
//! body. The body is the cryptographic library's own serialization of a value;
//! this module never looks inside it.

use crate::error::SignError;
use vstd::prelude::*;
use vstd::string::*;

verus! {

/// The character between the tag and the body.
pub const DELIMITER: char = '|';

/// The four kinds of payload. Each round of the protocol collects one kind.
#[derive(Clone, Copy, Debug, PartialEq, Eq, Structural)]
pub enum PayloadKind {
    /// A long-term public key, tagged `pk`, collected in round 0.
    PublicKey,
    /// A commitment to an ephemeral key, tagged `commitment`, collected in round 1.
    Commitment,
    /// The opening of a commitment, tagged `R`, collected in round 2.
    Nonce,
    /// A partial signature, tagged `signature`, collected in round 3.
    Signature,
}

impl PayloadKind {
    /// The tag that announces this kind on the wire.
    pub open spec fn tag(self) -> Seq<char> {
        match self {
            PayloadKind::PublicKey => seq!['p', 'k'],
            PayloadKind::Commitment => seq!['c', 'o', 'm', 'm', 'i', 't', 'm', 'e', 'n', 't'],
            PayloadKind::Nonce => seq!['R'],
            PayloadKind::Signature => seq!['s', 'i', 'g', 'n', 'a', 't', 'u', 'r', 'e'],
        }
    }

    /// The round that collects this kind.
    pub open spec fn round(self) -> nat {
        match self {
            PayloadKind::PublicKey => 0,
            PayloadKind::Commitment => 1,
            PayloadKind::Nonce => 2,
            PayloadKind::Signature => 3,
        }
    }

    /// The kind that round `round` collects; rounds past the last collect nothing.
    pub open spec fn of_round(round: nat) -> Option<PayloadKind> {
        if round == 0 {
            Some(PayloadKind::PublicKey)
        } else if round == 1 {
            Some(PayloadKind::Commitment)
        } else if round == 2 {
            Some(PayloadKind::Nonce)
        } else if round == 3 {
            Some(PayloadKind::Signature)
        } else {
            None
        }
    }

    /// The tag as a string slice.
    pub fn tag_str(self) -> (text: &'static str)
        ensures
            text@ == self.tag(),
    {
        proof {
            reveal_strlit("pk");
            reveal_strlit("commitment");
            reveal_strlit("R");
            reveal_strlit("signature");
        }
        let text = match self {
            PayloadKind::PublicKey => "pk",
            PayloadKind::Commitment => "commitment",
            PayloadKind::Nonce => "R",
            PayloadKind::Signature => "signature",
        };
        assert(text@ =~= self.tag());
        text
    }

    /// The number of the round that collects this kind.
    pub fn round_index(self) -> (round: u32)
        ensures
            round == self.round(),
    {
        match self {
            PayloadKind::PublicKey => 0,
            PayloadKind::Commitment => 1,
            PayloadKind::Nonce => 2,
            PayloadKind::Signature => 3,
        }
    }

    /// The kind collected in round `round`, if it is one of the four rounds.
    pub fn for_round(round: u32) -> (kind: Option<PayloadKind>)
        ensures
            kind == PayloadKind::of_round(round as nat),
    {
        if round == 0 {
            Some(PayloadKind::PublicKey)
        } else if round == 1 {
            Some(PayloadKind::Commitment)
        } else if round == 2 {
            Some(PayloadKind::Nonce)
        } else if round == 3 {
            Some(PayloadKind::Signature)
        } else {
            None
        }
    }
}

/// A payload taken apart: its kind and its body.
#[derive(Debug, PartialEq, Eq)]
pub struct Payload {
    pub kind: PayloadKind,
    pub body: String,
}

impl View for Payload {
    type V = (PayloadKind, Seq<char>);

    open spec fn view(&self) -> (PayloadKind, Seq<char>) {
        (self.kind, self.body@)
    }
}

/// The wire text of a payload: tag, delimiter, body.
pub open spec fn encoded(kind: PayloadKind, body: Seq<char>) -> Seq<char> {
    kind.tag() + seq![DELIMITER] + body
}

/// Whether `text` starts with the tag of `kind` and the delimiter.
pub open spec fn announces(text: Seq<char>, kind: PayloadKind) -> bool {
    &&& text.len() > kind.tag().len()
    &&& text.subrange(0, kind.tag().len() as int) == kind.tag()
    &&& text[kind.tag().len() as int] == DELIMITER
}

/// What follows the tag of `kind` and the delimiter in `text`.
pub open spec fn body_after(text: Seq<char>, kind: PayloadKind) -> Seq<char> {
    text.subrange(kind.tag().len() as int + 1, text.len() as int)
}

/// The kind and body that `text` carries, or `None` where `text` does not
/// start with one of the four tags and the delimiter.
pub open spec fn decoded(text: Seq<char>) -> Option<(PayloadKind, Seq<char>)> {
    if announces(text, PayloadKind::PublicKey) {
        Some((PayloadKind::PublicKey, body_after(text, PayloadKind::PublicKey)))
    } else if announces(text, PayloadKind::Commitment) {
        Some((PayloadKind::Commitment, body_after(text, PayloadKind::Commitment)))
    } else if announces(text, PayloadKind::Nonce) {
        Some((PayloadKind::Nonce, body_after(text, PayloadKind::Nonce)))
    } else if announces(text, PayloadKind::Signature) {
        Some((PayloadKind::Signature, body_after(text, PayloadKind::Signature)))
    } else {
        None
    }
}

/// The text before the first delimiter of `text`; all of `text` where it has none.
pub open spec fn tag_part(text: Seq<char>) -> Seq<char>
    decreases text.len(),
{
    if text.len() == 0 || text[0] == DELIMITER {
        Seq::empty()
    } else {
        seq![text[0]] + tag_part(text.drop_first())
    }
}

/// Decoding undoes encoding, whatever the body holds.
pub proof fn lemma_decode_encode(kind: PayloadKind, body: Seq<char>)
    ensures
        decoded(encoded(kind, body)) == Some((kind, body)),
{
    let text = encoded(kind, body);
    let tag = kind.tag();
    assert(text.subrange(0, tag.len() as int) =~= tag);
    assert(text[tag.len() as int] == DELIMITER);
    assert(body_after(text, kind) =~= body);
    assert(announces(text, kind));
    // No earlier branch of `decoded` fires: the tags differ in their first character.
    assert(text[0] == tag[0]);
    if kind != PayloadKind::PublicKey {
        assert(text.subrange(0, 2)[0] == text[0]);
    }
    if kind != PayloadKind::Commitment && kind != PayloadKind::PublicKey {
        assert(!announces(text, PayloadKind::Commitment)) by {
            if text.len() > 10 {
                assert(text.subrange(0, 10)[0] == text[0]);
            }
        }
    }
    if kind == PayloadKind::Signature {
        assert(text.subrange(0, 1)[0] == text[0]);
    }
}

/// Encoding undoes decoding: a text that decodes is the encoding of what it
/// decodes to.
pub proof fn lemma_encode_decode(text: Seq<char>)
    requires
        decoded(text) is Some,
    ensures
        encoded(decoded(text).unwrap().0, decoded(text).unwrap().1) == text,
{
    let (kind, body) = decoded(text).unwrap();
    assert(announces(text, kind));
    assert(encoded(kind, body) =~= text);
}

/// A text decodes exactly when a delimiter occurs in it and what stands before
/// the first one is one of the four tags.
pub proof fn lemma_decoded_by_tag(text: Seq<char>)
    ensures
        decoded(text) is Some <==> text.contains(DELIMITER) && exists|kind: PayloadKind|
            #[trigger] kind.tag() == tag_part(text),
        decoded(text) is Some ==> decoded(text).unwrap().0.tag() == tag_part(text),
{
    lemma_tag_part(text);
    let n = tag_part(text).len() as int;
    if decoded(text) is Some {
        let kind = decoded(text).unwrap().0;
        assert(announces(text, kind));
        let m = kind.tag().len() as int;
        assert(text.contains(DELIMITER));
        assert forall|j: int| 0 <= j < m implies text[j] != DELIMITER by {
            assert(text.subrange(0, m)[j] == text[j]);
        }
        assert(n == m) by {
            if n < m {
                assert(text[n] == DELIMITER);
            }
            if m < n {
                assert(tag_part(text)[m] == text[m]);
            }
        }
        assert(kind.tag() =~= tag_part(text));
    }
    if text.contains(DELIMITER) && exists|kind: PayloadKind| #[trigger]
        kind.tag() == tag_part(text) {
        let kind = choose|kind: PayloadKind| #[trigger] kind.tag() == tag_part(text);
        assert(n < text.len()) by {
            let j = choose|j: int| 0 <= j < text.len() && text[j] == DELIMITER;
            if n == text.len() {
                assert(tag_part(text)[j] == text[j]);
            }
        }
        assert(text.subrange(0, n) =~= tag_part(text));
        assert(announces(text, kind));
    }
}

/// `tag_part` is the longest prefix free of the delimiter.
proof fn lemma_tag_part(text: Seq<char>)
    ensures
        tag_part(text).len() <= text.len(),
        forall|j: int| 0 <= j < tag_part(text).len() ==> tag_part(text)[j] == text[j] && text[j]
            != DELIMITER,
        tag_part(text).len() < text.len() ==> text[tag_part(text).len() as int] == DELIMITER,
    decreases text.len(),
{
    if text.len() == 0 || text[0] == DELIMITER {
    } else {
        let rest = text.drop_first();
        lemma_tag_part(rest);
        assert forall|j: int| 0 <= j < tag_part(text).len() implies tag_part(text)[j] == text[j]
            && text[j] != DELIMITER by {
            if j > 0 {
                assert(tag_part(rest)[j - 1] == rest[j - 1]);
            }
        }
    }
}

/// Writes a payload of kind `kind` with body `body`.
pub fn encode(kind: PayloadKind, body: &str) -> (text: String)
    ensures
        text@ == encoded(kind, body@),
        decoded(text@) == Some((kind, body@)),
{
    proof {
        reveal_strlit("|");
        lemma_decode_encode(kind, body@);
    }
    let mut text = String::from_str(kind.tag_str());
    text.append("|");
    assert("|"@ =~= seq![DELIMITER]);
    text.append(body);
    text
}

/// Whether `text`, of `len` characters, starts with the tag of `kind` and the delimiter.
fn starts_with_tag(text: &str, len: usize, kind: PayloadKind) -> (yes: bool)
    requires
        len == text@.len(),
    ensures
        yes == announces(text@, kind),
{
    let tag = kind.tag_str();
    let tag_len = tag.unicode_len();
    if len <= tag_len {
        return false;
    }
    let mut i: usize = 0;
    while i < tag_len
        invariant
            i <= tag_len,
            tag_len == tag@.len(),
            tag@ == kind.tag(),
            tag_len < len,
            len == text@.len(),
            forall|j: int| 0 <= j < i ==> text@[j] == tag@[j],
        decreases tag_len - i,
    {
        if text.get_char(i) != tag.get_char(i) {
            proof {
                assert(text@.subrange(0, tag_len as int)[i as int] == text@[i as int]);
            }
            return false;
        }
        i += 1;
    }
    assert(text@.subrange(0, tag_len as int) =~= tag@);
    text.get_char(tag_len) == DELIMITER
}

/// Reads a payload: its kind by the tag, its body as what follows the first
/// delimiter. Fails with `MalformedPayload` where the text has no delimiter or
/// an unknown tag before it.
pub fn decode(text: &str) -> (res: Result<Payload, SignError>)
    ensures
        match res {
            Ok(payload) => decoded(text@) == Some(payload@),
            Err(e) => e == SignError::MalformedPayload && decoded(text@) is None,
        },
{
    let len = text.unicode_len();
    let kind = if starts_with_tag(text, len, PayloadKind::PublicKey) {
        PayloadKind::PublicKey
    } else if starts_with_tag(text, len, PayloadKind::Commitment) {
        PayloadKind::Commitment
    } else if starts_with_tag(text, len, PayloadKind::Nonce) {
        PayloadKind::Nonce
    } else if starts_with_tag(text, len, PayloadKind::Signature) {
        PayloadKind::Signature
    } else {
        return Err(SignError::MalformedPayload);
    };
    let start = kind.tag_str().unicode_len() + 1;
    let body = String::from_str(text.substring_char(start, len));
    Ok(Payload { kind, body })
}

} // verus!
