use vstd::prelude::*;
use vstd::slice::slice_subrange;
use vstd::utf8::{encode_utf8, is_ascii_chars, is_ascii_chars_encode_utf8};
use crate::text::{str_eq, strip_prefix};
use crate::types::info_hash::{
    InfoHash, ascii_lowercase, decode_hex20, hex_lower, hex_pairs, is_hex, law_hex_of_parsed_is_lowercase,
    lemma_no_non_hex,
};

verus! {

/// Compiles `pattern` with `regex::Regex::new` and asks `Regex::is_match`
/// whether it matches `text`. Only the two patterns below are given to it.
/// Both compile, and in the crate's syntax they read: `^` and `$` anchor at
/// the start and the end of the whole text (no multi-line flag is set), `\(`,
/// `\)` and `\.` stand for those characters, and `[0-9a-fA-F]{40}` for exactly
/// forty ASCII hex digits. So a text matches exactly when it is the lead, forty
/// hex digits, and `).`.
#[verifier::external_body]
fn regex_is_match(pattern: &str, text: &str) -> (r: Option<bool>)
    requires
        pattern@ == ALREADY_IN_SESSION@ || pattern@ == ALREADY_BEING_ADDED@,
    ensures
        pattern@ == ALREADY_IN_SESSION@ ==> r == Some(notice_with_hash(IN_SESSION_LEAD@, text@)),
        pattern@ == ALREADY_BEING_ADDED@ ==> r == Some(
            notice_with_hash(BEING_ADDED_LEAD@, text@),
        ),
{
    match regex::Regex::new(pattern) {
        Ok(re) => Some(re.is_match(text)),
        Err(_) => None,
    }
}

/// An ASCII hex digit, upper or lower case.
pub open spec fn is_hex_digit(c: char) -> bool {
    ('0' <= c && c <= '9') || ('a' <= c && c <= 'f') || ('A' <= c && c <= 'F')
}

/// Whether `text` is `lead`, then forty hex digits, then `).`.
pub open spec fn notice_with_hash(lead: Seq<char>, text: Seq<char>) -> bool {
    &&& text.len() == lead.len() + 42
    &&& text.subrange(0, lead.len() as int) == lead
    &&& forall|i: int| lead.len() <= i < lead.len() + 40 ==> is_hex_digit(#[trigger] text[i])
    &&& text[lead.len() + 40int] == ')'
    &&& text[lead.len() + 41int] == '.'
}

/// The bytes of ASCII characters.
pub open spec fn ascii_bytes(s: Seq<char>) -> Seq<u8> {
    Seq::new(s.len(), |i: int| s[i] as u8)
}

/// The start of the daemon's message for a torrent that is already in the session.
pub const IN_SESSION_LEAD: &'static str = "Torrent already in session (";

/// The start of the daemon's message for a torrent that is already being added.
pub const BEING_ADDED_LEAD: &'static str = "Torrent already being added (";

pub const ALREADY_IN_SESSION: &'static str = r"^Torrent already in session \([0-9a-fA-F]{40}\)\.$";

pub const ALREADY_BEING_ADDED: &'static str = r"^Torrent already being added \([0-9a-fA-F]{40}\)\.$";

pub const UNABLE_TO_ADD_MAGNET: &'static str = "Unable to add magnet, invalid magnet info: ";

pub const MUST_SPECIFY_VALID_TORRENT: &'static str =
    "You must specify a valid torrent_info, torrent state or magnet.";

pub const UNABLE_TO_ADD_TORRENT: &'static str = "Unable to add torrent, decoding filedump failed: ";

pub const UNABLE_TO_ADD_TO_SESSION: &'static str = "Unable to add torrent to session: ";

/// The reasons the daemon gives for refusing to add a torrent.
#[derive(Debug, PartialEq, Eq)]
pub enum Error {
    AlreadyInSession(InfoHash),
    AlreadyBeingAdded(InfoHash),
    UnableToAddMagnet(String),
    MustSpecifyValidTorrent,
    DecodingFiledumpFailed(String),
    UnableToAddToSession(String),
    Other(String),
}

/// The infohash that stands at bytes `start..start + 40` of a message, if it does.
pub open spec fn hash_at(msg: Seq<char>, start: int) -> Option<Seq<u8>> {
    let b = encode_utf8(msg);
    if b.len() >= start + 40 {
        match decode_hex20(b.subrange(start, start + 40)) {
            Ok(h) => Some(h),
            Err(_) => None,
        }
    } else {
        None
    }
}

/// Whether `e` is what the daemon's message `msg` says. The two "already"
/// messages carry the infohash as forty hex digits after their lead.
pub open spec fn parsed_as(msg: Seq<char>, e: Error) -> bool {
    if notice_with_hash(IN_SESSION_LEAD@, msg) {
        e matches Error::AlreadyInSession(h) && h@ == hex_pairs(ascii_bytes(msg.subrange(28, 68)))
    } else if notice_with_hash(BEING_ADDED_LEAD@, msg) {
        e matches Error::AlreadyBeingAdded(h) && h@ == hex_pairs(ascii_bytes(msg.subrange(29, 69)))
    } else if UNABLE_TO_ADD_MAGNET@.is_prefix_of(msg) {
        e matches Error::UnableToAddMagnet(m) && msg == UNABLE_TO_ADD_MAGNET@ + m@
    } else if msg == MUST_SPECIFY_VALID_TORRENT@ {
        e is MustSpecifyValidTorrent
    } else if UNABLE_TO_ADD_TORRENT@.is_prefix_of(msg) {
        e matches Error::DecodingFiledumpFailed(m) && msg == UNABLE_TO_ADD_TORRENT@ + m@
    } else if UNABLE_TO_ADD_TO_SESSION@.is_prefix_of(msg) {
        e matches Error::UnableToAddToSession(m) && msg == UNABLE_TO_ADD_TO_SESSION@ + m@
    } else {
        e matches Error::Other(m) && m@ == msg
    }
}

/// A message of the form lead, hex digits, `).` is ASCII, and its digits read
/// as an infohash at the place where the lead ends.
proof fn lemma_notice_hash(lead: Seq<char>, msg: Seq<char>)
    requires
        notice_with_hash(lead, msg),
        is_ascii_chars(lead),
    ensures
        hash_at(msg, lead.len() as int) == Some(
            hex_pairs(ascii_bytes(msg.subrange(lead.len() as int, lead.len() + 40int))),
        ),
{
    let n = lead.len() as int;
    assert forall|i: int| 0 <= i < msg.len() implies ('\0' <= #[trigger] msg[i] <= '\u{7f}') by {
        if i < n {
            assert(msg.subrange(0, n)[i] == lead[i]);
        }
    }
    assert(is_ascii_chars(msg));
    is_ascii_chars_encode_utf8(msg);
    let b = encode_utf8(msg);
    let d = b.subrange(n, n + 40);
    let a = ascii_bytes(msg.subrange(n, n + 40));
    assert(d =~= a);
    assert forall|k: int| 0 <= k < d.len() implies is_hex(#[trigger] d[k]) by {
        assert(is_hex_digit(msg[n + k]));
    }
    lemma_no_non_hex(d, 0);
}

fn hash_in(msg: &str, start: usize) -> (r: Option<InfoHash>)
    requires
        start <= 29,
    ensures
        r matches Some(h) ==> hash_at(msg@, start as int) == Some(h@),
        r is None ==> hash_at(msg@, start as int) is None,
{
    let b = msg.as_bytes();
    if b.len() < start + 40 {
        return None;
    }
    match InfoHash::from_hex_bytes(slice_subrange(b, start, start + 40)) {
        Ok(h) => Some(h),
        Err(_) => None,
    }
}

proof fn lemma_cancel_prefix(p: Seq<char>, x: Seq<char>, y: Seq<char>)
    requires
        p + x == p + y,
    ensures
        x == y,
{
    assert(x =~= (p + x).subrange(p.len() as int, (p + x).len() as int));
    assert(y =~= (p + y).subrange(p.len() as int, (p + y).len() as int));
}

/// Forty hex digits are ASCII, and read as the infohash of their pairs.
proof fn lemma_hex_text(hex: Seq<char>)
    requires
        hex.len() == 40,
        forall|i: int| 0 <= i < 40 ==> is_hex_digit(#[trigger] hex[i]),
    ensures
        decode_hex20(encode_utf8(hex)) == Ok::<Seq<u8>, crate::types::info_hash::HexError>(
            hex_pairs(ascii_bytes(hex)),
        ),
{
    assert forall|i: int| 0 <= i < hex.len() implies ('\0' <= #[trigger] hex[i] <= '\u{7f}') by {
        assert(is_hex_digit(hex[i]));
    }
    assert(is_ascii_chars(hex));
    is_ascii_chars_encode_utf8(hex);
    let b = encode_utf8(hex);
    assert(b =~= ascii_bytes(hex));
    assert forall|k: int| 0 <= k < b.len() implies is_hex(#[trigger] b[k]) by {
        assert(is_hex_digit(hex[k]));
    }
    lemma_no_non_hex(b, 0);
}

/// Law: what the daemon's add-torrent messages read as.
/// - "Torrent already in session (" or "Torrent already being added (", forty
///   hex digits and ")." carry the infohash whose hex text is those digits in
///   lower case.
/// - "Unable to add magnet, invalid magnet info: ", "Unable to add torrent,
///   decoding filedump failed: " and "Unable to add torrent to session: " are
///   followed by the detail that is kept.
/// - "You must specify a valid torrent_info, torrent state or magnet." stands
///   alone.
pub proof fn law_add_torrent_messages(hex: Seq<char>, rest: Seq<char>, e: Error)
    ensures
        hex.len() == 40 && (forall|i: int| 0 <= i < 40 ==> is_hex_digit(#[trigger] hex[i]))
            && parsed_as("Torrent already in session ("@ + hex + ")."@, e) ==> (e matches Error::AlreadyInSession(h)
            && hex_lower(h@) == ascii_lowercase(hex)),
        hex.len() == 40 && (forall|i: int| 0 <= i < 40 ==> is_hex_digit(#[trigger] hex[i]))
            && parsed_as("Torrent already being added ("@ + hex + ")."@, e) ==> (e matches Error::AlreadyBeingAdded(h)
            && hex_lower(h@) == ascii_lowercase(hex)),
        parsed_as("Unable to add magnet, invalid magnet info: "@ + rest, e) ==> (e matches Error::UnableToAddMagnet(m)
            && m@ == rest),
        parsed_as("You must specify a valid torrent_info, torrent state or magnet."@, e) ==> e
            is MustSpecifyValidTorrent,
        parsed_as("Unable to add torrent, decoding filedump failed: "@ + rest, e) ==> (e matches Error::DecodingFiledumpFailed(m)
            && m@ == rest),
        parsed_as("Unable to add torrent to session: "@ + rest, e) ==> (e matches Error::UnableToAddToSession(m)
            && m@ == rest),
{
    reveal_strlit("Torrent already in session (");
    reveal_strlit("Torrent already being added (");
    reveal_strlit(").");
    reveal_strlit("Unable to add magnet, invalid magnet info: ");
    reveal_strlit("You must specify a valid torrent_info, torrent state or magnet.");
    reveal_strlit("Unable to add torrent, decoding filedump failed: ");
    reveal_strlit("Unable to add torrent to session: ");
    if hex.len() == 40 && (forall|i: int| 0 <= i < 40 ==> is_hex_digit(#[trigger] hex[i])) {
        lemma_hex_text(hex);
        let m1 = "Torrent already in session ("@ + hex + ")."@;
        assert(m1.subrange(0, 28) =~= "Torrent already in session ("@);
        assert(m1.subrange(28, 68) =~= hex);
        assert forall|i: int| 28 <= i < 68 implies is_hex_digit(#[trigger] m1[i]) by {
            assert(m1[i] == hex[i - 28]);
        }
        assert(notice_with_hash(IN_SESSION_LEAD@, m1));
        let m2 = "Torrent already being added ("@ + hex + ")."@;
        assert(m2.subrange(0, 29) =~= "Torrent already being added ("@);
        assert(m2.subrange(29, 69) =~= hex);
        assert forall|i: int| 29 <= i < 69 implies is_hex_digit(#[trigger] m2[i]) by {
            assert(m2[i] == hex[i - 29]);
        }
        assert(m2[7] == ' ' && "Torrent already in session ("@[16] == 'i');
        assert(m2[16] == 'b');
        assert(!notice_with_hash(IN_SESSION_LEAD@, m2)) by {
            if notice_with_hash(IN_SESSION_LEAD@, m2) {
                assert(m2.subrange(0, 28)[16] == m2[16]);
            }
        }
        assert(notice_with_hash(BEING_ADDED_LEAD@, m2));
        if parsed_as(m1, e) {
            law_hex_of_parsed_is_lowercase(hex, hex_pairs(ascii_bytes(hex)));
        }
        if parsed_as(m2, e) {
            law_hex_of_parsed_is_lowercase(hex, hex_pairs(ascii_bytes(hex)));
        }
    }
    let a = "Unable to add magnet, invalid magnet info: "@ + rest;
    let b = "Unable to add torrent, decoding filedump failed: "@ + rest;
    let c = "Unable to add torrent to session: "@ + rest;
    let d = "You must specify a valid torrent_info, torrent state or magnet."@;
    assert(a[0] == 'U' && b[0] == 'U' && c[0] == 'U' && d[0] == 'Y');
    assert(!notice_with_hash(IN_SESSION_LEAD@, a) && !notice_with_hash(BEING_ADDED_LEAD@, a)) by {
        if a.len() >= 28 { assert(a.subrange(0, 28)[0] == a[0]); }
        if a.len() >= 29 { assert(a.subrange(0, 29)[0] == a[0]); }
    }
    assert(!notice_with_hash(IN_SESSION_LEAD@, b) && !notice_with_hash(BEING_ADDED_LEAD@, b)) by {
        if b.len() >= 28 { assert(b.subrange(0, 28)[0] == b[0]); }
        if b.len() >= 29 { assert(b.subrange(0, 29)[0] == b[0]); }
    }
    assert(!notice_with_hash(IN_SESSION_LEAD@, c) && !notice_with_hash(BEING_ADDED_LEAD@, c)) by {
        if c.len() >= 28 { assert(c.subrange(0, 28)[0] == c[0]); }
        if c.len() >= 29 { assert(c.subrange(0, 29)[0] == c[0]); }
    }
    assert(!notice_with_hash(IN_SESSION_LEAD@, d) && !notice_with_hash(BEING_ADDED_LEAD@, d)) by {
        assert(d.subrange(0, 28)[0] == d[0]);
        assert(d.subrange(0, 29)[0] == d[0]);
    }
    assert(UNABLE_TO_ADD_MAGNET@.is_prefix_of(a)) by {
        assert(a.subrange(0, UNABLE_TO_ADD_MAGNET@.len() as int) =~= UNABLE_TO_ADD_MAGNET@);
    }
    assert(a == UNABLE_TO_ADD_MAGNET@ + rest);
    assert(!UNABLE_TO_ADD_MAGNET@.is_prefix_of(b)) by {
        assert(b[14] == 't' && UNABLE_TO_ADD_MAGNET@[14] == 'm');
        if UNABLE_TO_ADD_MAGNET@.is_prefix_of(b) {
            assert(b.subrange(0, UNABLE_TO_ADD_MAGNET@.len() as int)[14] == b[14]);
        }
    }
    assert(!UNABLE_TO_ADD_MAGNET@.is_prefix_of(c)) by {
        assert(c[14] == 't' && UNABLE_TO_ADD_MAGNET@[14] == 'm');
        if UNABLE_TO_ADD_MAGNET@.is_prefix_of(c) {
            assert(c.subrange(0, UNABLE_TO_ADD_MAGNET@.len() as int)[14] == c[14]);
        }
    }
    assert(!UNABLE_TO_ADD_MAGNET@.is_prefix_of(d)) by {
        if UNABLE_TO_ADD_MAGNET@.is_prefix_of(d) {
            assert(d.subrange(0, UNABLE_TO_ADD_MAGNET@.len() as int)[0] == d[0]);
        }
    }
    assert(b != MUST_SPECIFY_VALID_TORRENT@) by {
        assert(b[0] != MUST_SPECIFY_VALID_TORRENT@[0]);
    }
    assert(c != MUST_SPECIFY_VALID_TORRENT@) by {
        assert(c[0] != MUST_SPECIFY_VALID_TORRENT@[0]);
    }
    assert(UNABLE_TO_ADD_TORRENT@.is_prefix_of(b)) by {
        assert(b.subrange(0, UNABLE_TO_ADD_TORRENT@.len() as int) =~= UNABLE_TO_ADD_TORRENT@);
    }
    assert(b == UNABLE_TO_ADD_TORRENT@ + rest);
    assert(!UNABLE_TO_ADD_TORRENT@.is_prefix_of(c)) by {
        assert(c[21] == ' ');
        assert(UNABLE_TO_ADD_TORRENT@[21] == ',');
        if UNABLE_TO_ADD_TORRENT@.is_prefix_of(c) {
            assert(c.subrange(0, UNABLE_TO_ADD_TORRENT@.len() as int)[21] == c[21]);
        }
    }
    assert(UNABLE_TO_ADD_TO_SESSION@.is_prefix_of(c)) by {
        assert(c.subrange(0, UNABLE_TO_ADD_TO_SESSION@.len() as int) =~= UNABLE_TO_ADD_TO_SESSION@);
    }
    assert(c == UNABLE_TO_ADD_TO_SESSION@ + rest);
    match e {
        Error::UnableToAddMagnet(m) => {
            if a == UNABLE_TO_ADD_MAGNET@ + m@ {
                lemma_cancel_prefix(UNABLE_TO_ADD_MAGNET@, m@, rest);
            }
        },
        Error::DecodingFiledumpFailed(m) => {
            if b == UNABLE_TO_ADD_TORRENT@ + m@ {
                lemma_cancel_prefix(UNABLE_TO_ADD_TORRENT@, m@, rest);
            }
        },
        Error::UnableToAddToSession(m) => {
            if c == UNABLE_TO_ADD_TO_SESSION@ + m@ {
                lemma_cancel_prefix(UNABLE_TO_ADD_TO_SESSION@, m@, rest);
            }
        },
        _ => {},
    }
}

impl Error {
    /// Reads the daemon's message.
    pub fn from_str(msg: &str) -> (r: Error)
        ensures
            parsed_as(msg@, r),
    {
        proof {
            reveal_strlit("Torrent already in session (");
            reveal_strlit("Torrent already being added (");
        }
        if regex_is_match(ALREADY_IN_SESSION, msg) == Some(true) {
            proof {
                lemma_notice_hash(IN_SESSION_LEAD@, msg@);
            }
            if let Some(h) = hash_in(msg, 28) {
                return Error::AlreadyInSession(h);
            }
        }
        if regex_is_match(ALREADY_BEING_ADDED, msg) == Some(true) {
            proof {
                lemma_notice_hash(BEING_ADDED_LEAD@, msg@);
            }
            if let Some(h) = hash_in(msg, 29) {
                return Error::AlreadyBeingAdded(h);
            }
        }
        if let Some(magnet) = strip_prefix(msg, UNABLE_TO_ADD_MAGNET) {
            Error::UnableToAddMagnet(magnet.to_owned())
        } else if str_eq(msg, MUST_SPECIFY_VALID_TORRENT) {
            Error::MustSpecifyValidTorrent
        } else if let Some(decode_ex) = strip_prefix(msg, UNABLE_TO_ADD_TORRENT) {
            Error::DecodingFiledumpFailed(decode_ex.to_owned())
        } else if let Some(ex) = strip_prefix(msg, UNABLE_TO_ADD_TO_SESSION) {
            Error::UnableToAddToSession(ex.to_owned())
        } else {
            Error::Other(msg.to_owned())
        }
    }

    /// The infohash of a torrent that was already there or on its way, or the
    /// error itself.
    pub fn ok_if_added(self) -> (r: Result<InfoHash, Error>)
        ensures
            match self {
                Error::AlreadyInSession(h) => r == Ok::<InfoHash, Error>(h),
                Error::AlreadyBeingAdded(h) => r == Ok::<InfoHash, Error>(h),
                _ => r == Err::<InfoHash, Error>(self),
            },
    {
        match self {
            Error::AlreadyInSession(h) | Error::AlreadyBeingAdded(h) => Ok(h),
            e => Err(e),
        }
    }
}

} // verus!
