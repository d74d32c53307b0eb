use vstd::prelude::*;
use crate::text::str_eq;

verus! {

/// Calls `format!("{:?}", s)`: std's `Debug` text of a string, quoted and escaped.
pub uninterp spec fn debug_text(s: Seq<char>) -> Seq<char>;

#[verifier::external_body]
fn debug_quoted(s: &str) -> (r: String)
    ensures
        r@ == debug_text(s@),
{
    format!("{:?}", s)
}

/// The message for a string that names no variant of the enum `enum_name`.
pub open spec fn invalid_value_message(enum_name: Seq<char>, s: Seq<char>) -> Seq<char> {
    "Invalid "@ + enum_name + " value: "@ + debug_text(s)
}

fn invalid_value(enum_name: &str, s: &str) -> (r: String)
    ensures
        r@ == invalid_value_message(enum_name@, s@),
{
    let mut m = "Invalid ".to_owned();
    m.append(enum_name);
    m.append(" value: ");
    let q = debug_quoted(s);
    m.append(q.as_str());
    m
}

/// File priorities as the daemon reports them, all eight levels.
#[derive(Clone, Copy, PartialEq, Eq, Structural, PartialOrd, Ord, Hash, Debug)]
pub enum TolerantFilePriority {
    Skip,
    Low1,
    Low2,
    Low3,
    Normal,
    High5,
    High6,
    High7,
}

impl TolerantFilePriority {
    pub open spec fn code(self) -> u8 {
        match self {
            TolerantFilePriority::Skip => 0,
            TolerantFilePriority::Low1 => 1,
            TolerantFilePriority::Low2 => 2,
            TolerantFilePriority::Low3 => 3,
            TolerantFilePriority::Normal => 4,
            TolerantFilePriority::High5 => 5,
            TolerantFilePriority::High6 => 6,
            TolerantFilePriority::High7 => 7,
        }
    }

    pub fn to_u8(self) -> (r: u8)
        ensures
            r == self.code(),
    {
        match self {
            TolerantFilePriority::Skip => 0,
            TolerantFilePriority::Low1 => 1,
            TolerantFilePriority::Low2 => 2,
            TolerantFilePriority::Low3 => 3,
            TolerantFilePriority::Normal => 4,
            TolerantFilePriority::High5 => 5,
            TolerantFilePriority::High6 => 6,
            TolerantFilePriority::High7 => 7,
        }
    }

    /// The level with this number; none above 7.
    pub fn try_from_u8(v: u8) -> (r: Option<TolerantFilePriority>)
        ensures
            v <= 7 <==> r is Some,
            r matches Some(p) ==> p.code() == v,
    {
        match v {
            0 => Some(TolerantFilePriority::Skip),
            1 => Some(TolerantFilePriority::Low1),
            2 => Some(TolerantFilePriority::Low2),
            3 => Some(TolerantFilePriority::Low3),
            4 => Some(TolerantFilePriority::Normal),
            5 => Some(TolerantFilePriority::High5),
            6 => Some(TolerantFilePriority::High6),
            7 => Some(TolerantFilePriority::High7),
            _ => None,
        }
    }
}

/// The four file priorities that Deluge names.
#[derive(Clone, Copy, PartialEq, Eq, Structural, PartialOrd, Ord, Hash, Debug)]
pub enum FilePriority {
    Skip,
    Low,
    Normal,
    High,
}

impl FilePriority {
    pub open spec fn code(self) -> u8 {
        match self {
            FilePriority::Skip => 0,
            FilePriority::Low => 1,
            FilePriority::Normal => 4,
            FilePriority::High => 7,
        }
    }

    /// The priority that a level of the daemon's falls under.
    pub open spec fn of_level(v: u8) -> FilePriority {
        if v == 0 {
            FilePriority::Skip
        } else if v <= 3 {
            FilePriority::Low
        } else if v == 4 {
            FilePriority::Normal
        } else {
            FilePriority::High
        }
    }

    pub fn to_u8(self) -> (r: u8)
        ensures
            r == self.code(),
    {
        match self {
            FilePriority::Skip => 0,
            FilePriority::Low => 1,
            FilePriority::Normal => 4,
            FilePriority::High => 7,
        }
    }

    /// Reads a priority as the daemon sends it: any level from 0 to 7 is
    /// accepted and falls under the nearest named priority.
    pub fn from_u8(v: u8) -> (r: Option<FilePriority>)
        ensures
            v <= 7 <==> r is Some,
            r matches Some(p) ==> p == FilePriority::of_level(v),
    {
        match TolerantFilePriority::try_from_u8(v) {
            Some(t) => Some(FilePriority::from(t)),
            None => None,
        }
    }
}

impl vstd::std_specs::convert::FromSpecImpl<TolerantFilePriority> for FilePriority {
    open spec fn obeys_from_spec() -> bool {
        true
    }

    open spec fn from_spec(v: TolerantFilePriority) -> FilePriority {
        FilePriority::of_level(v.code())
    }
}

impl From<TolerantFilePriority> for FilePriority {
    fn from(value: TolerantFilePriority) -> (r: FilePriority) {
        match value.to_u8() {
            0 => FilePriority::Skip,
            1..=3 => FilePriority::Low,
            4 => FilePriority::Normal,
            _ => FilePriority::High,
        }
    }
}

impl Default for FilePriority {
    fn default() -> (r: FilePriority)
        ensures
            r == FilePriority::Normal,
    {
        FilePriority::Normal
    }
}

/// Law: a priority written as its number reads back as itself.
pub proof fn law_file_priority_roundtrip(p: FilePriority)
    ensures
        p.code() <= 7,
        FilePriority::of_level(p.code()) == p,
{
}

/// A user's authority on the daemon.
#[derive(Clone, Copy, PartialEq, Eq, Structural, PartialOrd, Ord, Hash, Debug)]
pub enum AuthLevel {
    Nobody,
    ReadOnly,
    Normal,
    Admin,
}

impl AuthLevel {
    pub open spec fn code(self) -> u8 {
        match self {
            AuthLevel::Nobody => 0,
            AuthLevel::ReadOnly => 1,
            AuthLevel::Normal => 5,
            AuthLevel::Admin => 10,
        }
    }

    pub fn to_u8(self) -> (r: u8)
        ensures
            r == self.code(),
    {
        match self {
            AuthLevel::Nobody => 0,
            AuthLevel::ReadOnly => 1,
            AuthLevel::Normal => 5,
            AuthLevel::Admin => 10,
        }
    }

    /// The level with this number, if there is one.
    pub fn try_from_u8(v: u8) -> (r: Option<AuthLevel>)
        ensures
            r is Some <==> (v == 0 || v == 1 || v == 5 || v == 10),
            r matches Some(l) ==> l.code() == v,
    {
        match v {
            0 => Some(AuthLevel::Nobody),
            1 => Some(AuthLevel::ReadOnly),
            5 => Some(AuthLevel::Normal),
            10 => Some(AuthLevel::Admin),
            _ => None,
        }
    }
}

impl Default for AuthLevel {
    fn default() -> (r: AuthLevel)
        ensures
            r == AuthLevel::Normal,
    {
        AuthLevel::Normal
    }
}

/// Law: an authority level written as its number reads back as itself, and
/// different levels have different numbers.
pub proof fn law_auth_level_roundtrip(a: AuthLevel, b: AuthLevel)
    ensures
        a.code() == 0 || a.code() == 1 || a.code() == 5 || a.code() == 10,
        a.code() == b.code() ==> a == b,
{
}

/// The state of a torrent.
#[derive(Clone, Copy, PartialEq, Eq, Structural, PartialOrd, Ord, Hash, Debug)]
pub enum TorrentState {
    Checking,
    Downloading,
    Seeding,
    Allocating,
    Error,
    Moving,
    Queued,
    Paused,
}

impl TorrentState {
    pub open spec fn name(self) -> Seq<char> {
        match self {
            TorrentState::Checking => "Checking"@,
            TorrentState::Downloading => "Downloading"@,
            TorrentState::Seeding => "Seeding"@,
            TorrentState::Allocating => "Allocating"@,
            TorrentState::Error => "Error"@,
            TorrentState::Moving => "Moving"@,
            TorrentState::Queued => "Queued"@,
            TorrentState::Paused => "Paused"@,
        }
    }

    /// The state whose name is `s`.
    pub open spec fn named(s: Seq<char>) -> Option<TorrentState> {
        if s == "Checking"@ {
            Some(TorrentState::Checking)
        } else if s == "Downloading"@ {
            Some(TorrentState::Downloading)
        } else if s == "Seeding"@ {
            Some(TorrentState::Seeding)
        } else if s == "Allocating"@ {
            Some(TorrentState::Allocating)
        } else if s == "Error"@ {
            Some(TorrentState::Error)
        } else if s == "Moving"@ {
            Some(TorrentState::Moving)
        } else if s == "Queued"@ {
            Some(TorrentState::Queued)
        } else if s == "Paused"@ {
            Some(TorrentState::Paused)
        } else {
            None
        }
    }

    /// The variant's name; it is also what goes on the wire.
    pub fn as_str(&self) -> (r: &'static str)
        ensures
            r@ == self.name(),
    {
        match self {
            TorrentState::Checking => "Checking",
            TorrentState::Downloading => "Downloading",
            TorrentState::Seeding => "Seeding",
            TorrentState::Allocating => "Allocating",
            TorrentState::Error => "Error",
            TorrentState::Moving => "Moving",
            TorrentState::Queued => "Queued",
            TorrentState::Paused => "Paused",
        }
    }

    /// Reads a state from its name.
    pub fn from_str(s: &str) -> (r: Result<TorrentState, String>)
        ensures
            match TorrentState::named(s@) {
                Some(t) => r == Ok::<TorrentState, String>(t),
                None => r matches Err(m) && m@ == invalid_value_message("TorrentState"@, s@),
            },
    {
        if str_eq(s, "Checking") {
            Ok(TorrentState::Checking)
        } else if str_eq(s, "Downloading") {
            Ok(TorrentState::Downloading)
        } else if str_eq(s, "Seeding") {
            Ok(TorrentState::Seeding)
        } else if str_eq(s, "Allocating") {
            Ok(TorrentState::Allocating)
        } else if str_eq(s, "Error") {
            Ok(TorrentState::Error)
        } else if str_eq(s, "Moving") {
            Ok(TorrentState::Moving)
        } else if str_eq(s, "Queued") {
            Ok(TorrentState::Queued)
        } else if str_eq(s, "Paused") {
            Ok(TorrentState::Paused)
        } else {
            Err(invalid_value("TorrentState", s))
        }
    }
}

/// Law: the name of every state reads back as that state.
pub proof fn law_torrent_state_roundtrip(t: TorrentState)
    ensures
        TorrentState::named(t.name()) == Some(t),
{
    reveal_strlit("Checking");
    assert("Checking"@.len() == 8 && "Checking"@[0] == 'C');
    reveal_strlit("Downloading");
    assert("Downloading"@.len() == 11 && "Downloading"@[0] == 'D');
    reveal_strlit("Seeding");
    assert("Seeding"@.len() == 7 && "Seeding"@[0] == 'S');
    reveal_strlit("Allocating");
    assert("Allocating"@.len() == 10 && "Allocating"@[0] == 'A');
    reveal_strlit("Error");
    assert("Error"@.len() == 5 && "Error"@[0] == 'E');
    reveal_strlit("Moving");
    assert("Moving"@.len() == 6 && "Moving"@[0] == 'M');
    reveal_strlit("Queued");
    assert("Queued"@.len() == 6 && "Queued"@[0] == 'Q');
    reveal_strlit("Paused");
    assert("Paused"@.len() == 6 && "Paused"@[0] == 'P');
}

/// The keys by which the daemon filters torrents.
#[derive(Clone, Copy, PartialEq, Eq, Structural, PartialOrd, Ord, Hash, Debug)]
pub enum FilterKey {
    State,
    Tracker,
    Owner,
    Label,
}

impl FilterKey {
    /// The variant's name.
    pub open spec fn name(self) -> Seq<char> {
        match self {
            FilterKey::State => "State"@,
            FilterKey::Tracker => "Tracker"@,
            FilterKey::Owner => "Owner"@,
            FilterKey::Label => "Label"@,
        }
    }

    /// The key as the daemon writes it.
    pub open spec fn wire_name(self) -> Seq<char> {
        match self {
            FilterKey::State => "state"@,
            FilterKey::Tracker => "tracker_host"@,
            FilterKey::Owner => "owner"@,
            FilterKey::Label => "label"@,
        }
    }

    /// The key that `s` names, by either of its names.
    pub open spec fn named(s: Seq<char>) -> Option<FilterKey> {
        if s == "State"@ || s == "state"@ {
            Some(FilterKey::State)
        } else if s == "Tracker"@ || s == "tracker_host"@ {
            Some(FilterKey::Tracker)
        } else if s == "Owner"@ || s == "owner"@ {
            Some(FilterKey::Owner)
        } else if s == "Label"@ || s == "label"@ {
            Some(FilterKey::Label)
        } else {
            None
        }
    }

    pub fn as_str(&self) -> (r: &'static str)
        ensures
            r@ == self.name(),
    {
        match self {
            FilterKey::State => "State",
            FilterKey::Tracker => "Tracker",
            FilterKey::Owner => "Owner",
            FilterKey::Label => "Label",
        }
    }

    /// The key as the daemon writes it; this is what is serialized.
    pub fn wire_str(self) -> (r: &'static str)
        ensures
            r@ == self.wire_name(),
    {
        match self {
            FilterKey::State => "state",
            FilterKey::Tracker => "tracker_host",
            FilterKey::Owner => "owner",
            FilterKey::Label => "label",
        }
    }

    /// Reads a key from either of its names.
    pub fn from_str(s: &str) -> (r: Result<FilterKey, String>)
        ensures
            match FilterKey::named(s@) {
                Some(k) => r == Ok::<FilterKey, String>(k),
                None => r matches Err(m) && m@ == invalid_value_message("FilterKey"@, s@),
            },
    {
        if str_eq(s, "State") || str_eq(s, "state") {
            Ok(FilterKey::State)
        } else if str_eq(s, "Tracker") || str_eq(s, "tracker_host") {
            Ok(FilterKey::Tracker)
        } else if str_eq(s, "Owner") || str_eq(s, "owner") {
            Ok(FilterKey::Owner)
        } else if str_eq(s, "Label") || str_eq(s, "label") {
            Ok(FilterKey::Label)
        } else {
            Err(invalid_value("FilterKey", s))
        }
    }
}

/// Law: both names of every filter key read back as that key.
pub proof fn law_filter_key_roundtrip(k: FilterKey)
    ensures
        FilterKey::named(k.name()) == Some(k),
        FilterKey::named(k.wire_name()) == Some(k),
{
    reveal_strlit("State");
    assert("State"@.len() == 5 && "State"@[0] == 'S');
    reveal_strlit("state");
    assert("state"@.len() == 5 && "state"@[0] == 's');
    reveal_strlit("Tracker");
    assert("Tracker"@.len() == 7 && "Tracker"@[0] == 'T');
    reveal_strlit("tracker_host");
    assert("tracker_host"@.len() == 12 && "tracker_host"@[0] == 't');
    reveal_strlit("Owner");
    assert("Owner"@.len() == 5 && "Owner"@[0] == 'O');
    reveal_strlit("owner");
    assert("owner"@.len() == 5 && "owner"@[0] == 'o');
    reveal_strlit("Label");
    assert("Label"@.len() == 5 && "Label"@[0] == 'L');
    reveal_strlit("label");
    assert("label"@.len() == 5 && "label"@[0] == 'l');
}

/// Law: each torrent state is read and written by its variant's own name
/// ("Checking", "Downloading", "Seeding", "Allocating", "Error", "Moving",
/// "Queued", "Paused"), and no other text reads as a state.
pub proof fn law_torrent_state_names(s: Seq<char>)
    ensures
        TorrentState::Checking.name() == "Checking"@,
        TorrentState::Downloading.name() == "Downloading"@,
        TorrentState::Seeding.name() == "Seeding"@,
        TorrentState::Allocating.name() == "Allocating"@,
        TorrentState::Error.name() == "Error"@,
        TorrentState::Moving.name() == "Moving"@,
        TorrentState::Queued.name() == "Queued"@,
        TorrentState::Paused.name() == "Paused"@,
        TorrentState::named("Checking"@) == Some(TorrentState::Checking),
        TorrentState::named("Downloading"@) == Some(TorrentState::Downloading),
        TorrentState::named("Seeding"@) == Some(TorrentState::Seeding),
        TorrentState::named("Allocating"@) == Some(TorrentState::Allocating),
        TorrentState::named("Error"@) == Some(TorrentState::Error),
        TorrentState::named("Moving"@) == Some(TorrentState::Moving),
        TorrentState::named("Queued"@) == Some(TorrentState::Queued),
        TorrentState::named("Paused"@) == Some(TorrentState::Paused),
        TorrentState::named(s) matches Some(t) ==> t.name() == s,
{
    law_torrent_state_roundtrip(TorrentState::Checking);
    law_torrent_state_roundtrip(TorrentState::Downloading);
    law_torrent_state_roundtrip(TorrentState::Seeding);
    law_torrent_state_roundtrip(TorrentState::Allocating);
    law_torrent_state_roundtrip(TorrentState::Error);
    law_torrent_state_roundtrip(TorrentState::Moving);
    law_torrent_state_roundtrip(TorrentState::Queued);
    law_torrent_state_roundtrip(TorrentState::Paused);
}

/// Law: the daemon's names of the filter keys are "state", "tracker_host",
/// "owner" and "label"; each key is read from that name or from its variant's
/// name, and no other text reads as a key.
pub proof fn law_filter_key_names(s: Seq<char>)
    ensures
        FilterKey::State.name() == "State"@,
        FilterKey::State.wire_name() == "state"@,
        FilterKey::Tracker.name() == "Tracker"@,
        FilterKey::Tracker.wire_name() == "tracker_host"@,
        FilterKey::Owner.name() == "Owner"@,
        FilterKey::Owner.wire_name() == "owner"@,
        FilterKey::Label.name() == "Label"@,
        FilterKey::Label.wire_name() == "label"@,
        FilterKey::named("State"@) == Some(FilterKey::State),
        FilterKey::named("state"@) == Some(FilterKey::State),
        FilterKey::named("Tracker"@) == Some(FilterKey::Tracker),
        FilterKey::named("tracker_host"@) == Some(FilterKey::Tracker),
        FilterKey::named("Owner"@) == Some(FilterKey::Owner),
        FilterKey::named("owner"@) == Some(FilterKey::Owner),
        FilterKey::named("Label"@) == Some(FilterKey::Label),
        FilterKey::named("label"@) == Some(FilterKey::Label),
        FilterKey::named(s) matches Some(k) ==> (s == k.name() || s == k.wire_name()),
{
    law_filter_key_roundtrip(FilterKey::State);
    law_filter_key_roundtrip(FilterKey::Tracker);
    law_filter_key_roundtrip(FilterKey::Owner);
    law_filter_key_roundtrip(FilterKey::Label);
}

/// Law: the numbers of the file priorities and of the authority levels, as
/// the daemon uses them. The priorities are Skip 0, Low 1, Normal 4 and
/// High 7, and the daemon's levels 0 to 7 fall under Skip (0), Low (1 to 3),
/// Normal (4) and High (5 to 7). The authority levels are Nobody 0,
/// ReadOnly 1, Normal 5 and Admin 10.
pub proof fn law_enum_numbers(v: u8)
    ensures
        FilePriority::Skip.code() == 0,
        FilePriority::Low.code() == 1,
        FilePriority::Normal.code() == 4,
        FilePriority::High.code() == 7,
        v == 0 ==> FilePriority::of_level(v) == FilePriority::Skip,
        1 <= v <= 3 ==> FilePriority::of_level(v) == FilePriority::Low,
        v == 4 ==> FilePriority::of_level(v) == FilePriority::Normal,
        5 <= v <= 7 ==> FilePriority::of_level(v) == FilePriority::High,
        TolerantFilePriority::Skip.code() == 0,
        TolerantFilePriority::Low1.code() == 1,
        TolerantFilePriority::Low2.code() == 2,
        TolerantFilePriority::Low3.code() == 3,
        TolerantFilePriority::Normal.code() == 4,
        TolerantFilePriority::High5.code() == 5,
        TolerantFilePriority::High6.code() == 6,
        TolerantFilePriority::High7.code() == 7,
        AuthLevel::Nobody.code() == 0,
        AuthLevel::ReadOnly.code() == 1,
        AuthLevel::Normal.code() == 5,
        AuthLevel::Admin.code() == 10,
{
}

} // verus!
