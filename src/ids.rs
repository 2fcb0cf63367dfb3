//! Game and session identifiers: fixed-width random values written as a prefix followed
//! by the RFC 4648 base32 text (without padding) of their bytes.

use vstd::prelude::*;

verus! {

/// The base32 text (RFC 4648 alphabet, no padding) of a byte sequence.
pub uninterp spec fn base32_text(bytes: Seq<u8>) -> Seq<char>;

/// What base32 decoding (RFC 4648 alphabet) makes of a text: the bytes, or nothing when
/// the text is not base32.
pub uninterp spec fn base32_bytes(text: Seq<char>) -> Option<Seq<u8>>;

/// Relies on `base32::encode` with the RFC 4648 alphabet and no padding: the text depends
/// on the bytes alone, and `base32::decode` turns it back into the same bytes.
#[verifier::external_body]
fn encode_base32(bytes: &[u8]) -> (r: String)
    ensures
        r@ == base32_text(bytes@),
        base32_bytes(r@) == Some(bytes@),
{
    base32::encode(base32::Alphabet::RFC4648 { padding: false }, bytes)
}

/// Relies on `base32::decode` with the RFC 4648 alphabet: the result depends on the text
/// alone.
#[verifier::external_body]
fn decode_base32(text: &str) -> (r: Option<Vec<u8>>)
    ensures
        match r {
            Some(v) => base32_bytes(text@) == Some(v@),
            None => base32_bytes(text@) is None,
        },
{
    base32::decode(base32::Alphabet::RFC4648 { padding: false }, text)
}

/// Random values for fresh identifiers come from `rand::random` (the thread-local
/// generator, which panics only when the operating system's random source cannot seed
/// it); nothing is known of the value drawn.
pub assume_specification<T>[ rand::random::<T> ]() -> (r: T)
    where
        rand::distributions::Standard: rand::distributions::Distribution<T>,
;

pub open spec fn game_prefix() -> Seq<char> {
    seq!['g', 'a', 'm', 'e', '_']
}

pub open spec fn session_prefix() -> Seq<char> {
    seq!['s', 'e', 's', 's', 'i', 'o', 'n', '_']
}

/// The bytes that `text` stands for as an identifier with the given prefix and width:
/// the text must start with the prefix and the rest must decode to exactly `width` bytes.
pub open spec fn id_bytes_of(text: Seq<char>, prefix: Seq<char>, width: nat) -> Option<Seq<u8>> {
    if prefix.len() <= text.len() && text.subrange(0, prefix.len() as int) == prefix {
        match base32_bytes(text.subrange(prefix.len() as int, text.len() as int)) {
            Some(b) => if b.len() == width {
                Some(b)
            } else {
                None
            },
            None => None,
        }
    } else {
        None
    }
}

/// The identifier of a game: four random bytes, written `game_<base32>`.
#[derive(Clone, Copy, PartialEq, Eq, Hash, Debug)]
pub struct GameId([u8; 4]);

/// The identifier of a session within a game: sixteen random bytes, written
/// `session_<base32>`.
#[derive(Clone, Copy, PartialEq, Eq, Hash, Debug)]
pub struct SessionId([u8; 16]);

/// A text that is not a well-formed identifier of the expected kind.
#[derive(Clone, Debug)]
pub struct InvalidId {
    pub text: String,
}

/// Splits `prefix` off the front of `s`, or returns `None` when `s` does not start with it.
fn strip_prefix<'a>(s: &'a str, prefix: &str) -> (r: Option<&'a str>)
    ensures
        match r {
            Some(rest) => prefix@.len() <= s@.len() && s@.subrange(0, prefix@.len() as int)
                == prefix@ && rest@ == s@.subrange(prefix@.len() as int, s@.len() as int),
            None => !(prefix@.len() <= s@.len() && s@.subrange(0, prefix@.len() as int)
                == prefix@),
        },
{
    let n = s.unicode_len();
    let m = prefix.unicode_len();
    if m > n {
        return None;
    }
    let mut i: usize = 0;
    while i < m
        invariant
            n == s@.len(),
            m == prefix@.len(),
            m <= n,
            i <= m,
            forall|j: int| 0 <= j < i ==> s@[j] == prefix@[j],
        decreases m - i,
    {
        if s.get_char(i) != prefix.get_char(i) {
            assert(s@.subrange(0, m as int)[i as int] != prefix@[i as int]);
            return None;
        }
        i = i + 1;
    }
    assert(s@.subrange(0, m as int) =~= prefix@);
    Some(s.substring_char(m, n))
}

impl GameId {
    pub closed spec fn view(self) -> Seq<u8> {
        self.0@
    }

    /// A fresh random identifier.
    pub fn new() -> (r: GameId) {
        GameId(rand::random::<[u8; 4]>())
    }

    pub fn from_bytes(bytes: [u8; 4]) -> (r: GameId)
        ensures
            r@ == bytes@,
    {
        GameId(bytes)
    }

    pub fn bytes(&self) -> (r: [u8; 4])
        ensures
            r@ == self@,
    {
        self.0
    }

    /// The text form: `game_` followed by the base32 text of the bytes. Parsing that
    /// text gives this identifier back.
    pub fn to_string(&self) -> (r: String)
        ensures
            r@ == game_prefix() + base32_text(self@),
            id_bytes_of(r@, game_prefix(), 4) == Some(self@),
    {
        let text = encode_base32(self.0.as_slice());
        let r = String::from_str("game_").concat(text.as_str());
        proof {
            reveal_strlit("game_");
            assert("game_"@ =~= game_prefix());
            assert(r@.subrange(0, 5) =~= game_prefix());
            assert(r@.subrange(5, r@.len() as int) =~= text@);
        }
        r
    }

    /// Reads the text form; fails unless the text is `game_` followed by base32 text of
    /// exactly four bytes.
    pub fn parse(text: &str) -> (r: Result<GameId, InvalidId>)
        ensures
            match id_bytes_of(text@, game_prefix(), 4) {
                Some(b) => r matches Ok(id) && id@ == b,
                None => r matches Err(e) && e.text@ == text@,
            },
    {
        proof {
            reveal_strlit("game_");
            assert("game_"@ =~= game_prefix());
        }
        if let Some(rest) = strip_prefix(text, "game_") {
            if let Some(v) = decode_base32(rest) {
                if v.len() == 4 {
                    let bytes: [u8; 4] = [v[0], v[1], v[2], v[3]];
                    assert(bytes@ =~= v@);
                    return Ok(GameId(bytes));
                }
            }
        }
        Err(InvalidId { text: String::from_str(text) })
    }
}


impl SessionId {
    pub closed spec fn view(self) -> Seq<u8> {
        self.0@
    }

    /// A fresh random identifier.
    pub fn new() -> (r: SessionId) {
        SessionId(rand::random::<[u8; 16]>())
    }

    pub fn from_bytes(bytes: [u8; 16]) -> (r: SessionId)
        ensures
            r@ == bytes@,
    {
        SessionId(bytes)
    }

    pub fn bytes(&self) -> (r: [u8; 16])
        ensures
            r@ == self@,
    {
        self.0
    }

    /// Whether two identifiers hold the same bytes.
    pub fn same(&self, other: &SessionId) -> (r: bool)
        ensures
            r == (self@ == other@),
    {
        let mut i: usize = 0;
        while i < 16
            invariant
                i <= 16,
                self@.len() == 16,
                other@.len() == 16,
                forall|j: int| 0 <= j < i ==> self@[j] == other@[j],
            decreases 16 - i,
        {
            if self.0[i] != other.0[i] {
                return false;
            }
            i = i + 1;
        }
        assert(self@ =~= other@);
        true
    }

    /// The text form: `session_` followed by the base32 text of the bytes. Parsing that
    /// text gives this identifier back.
    pub fn to_string(&self) -> (r: String)
        ensures
            r@ == session_prefix() + base32_text(self@),
            id_bytes_of(r@, session_prefix(), 16) == Some(self@),
    {
        let text = encode_base32(self.0.as_slice());
        let r = String::from_str("session_").concat(text.as_str());
        proof {
            reveal_strlit("session_");
            assert("session_"@ =~= session_prefix());
            assert(r@.subrange(0, 8) =~= session_prefix());
            assert(r@.subrange(8, r@.len() as int) =~= text@);
        }
        r
    }

    /// Reads the text form; fails unless the text is `session_` followed by base32 text
    /// of exactly sixteen bytes.
    pub fn parse(text: &str) -> (r: Result<SessionId, InvalidId>)
        ensures
            match id_bytes_of(text@, session_prefix(), 16) {
                Some(b) => r matches Ok(id) && id@ == b,
                None => r matches Err(e) && e.text@ == text@,
            },
    {
        proof {
            reveal_strlit("session_");
            assert("session_"@ =~= session_prefix());
        }
        if let Some(rest) = strip_prefix(text, "session_") {
            if let Some(v) = decode_base32(rest) {
                if v.len() == 16 {
                    let bytes: [u8; 16] = [
                        v[0], v[1], v[2], v[3], v[4], v[5], v[6], v[7],
                        v[8], v[9], v[10], v[11], v[12], v[13], v[14], v[15],
                    ];
                    assert(bytes@ =~= v@);
                    return Ok(SessionId(bytes));
                }
            }
        }
        Err(InvalidId { text: String::from_str(text) })
    }
}

} // verus!
