use vstd::prelude::*;
use vstd::utf8::encode_utf8;
use crate::rencode::value::{Model, Value, models};
use crate::text::str_eq;
use crate::types::enums::TorrentState;
use crate::types::info_hash::{HexError, InfoHash, decode_hex20};

verus! {

/// An event that the daemon announces.
#[derive(Debug)]
pub enum Event {
    TorrentAdded(InfoHash, bool),
    TorrentRemoved(InfoHash),
    PreTorrentRemoved(InfoHash),
    TorrentStateChanged(InfoHash, TorrentState),
    TorrentTrackerStatus(InfoHash, String),
    TorrentQueueChanged,
    TorrentFolderRenamed(InfoHash, String, String),
    TorrentFileRenamed(InfoHash, usize, String),
    TorrentFinished(InfoHash),
    TorrentResumed(InfoHash),
    TorrentFileCompleted(InfoHash, usize),
    TorrentStorageMoved(InfoHash, String),
    CreateTorrentProgress(usize, usize),
    NewVersionAvailable(String),
    SessionStarted,
    SessionPaused,
    SessionResumed,
    ConfigValueChanged(String, Value),
    PluginEnabled(String),
    PluginDisabled(String),
    ClientDisconnected(isize),
    /// The address, as the daemon wrote it.
    ExternalIp(String),
    /// An announcement whose name or arguments fit no kind of event.
    Unrecognized(String, Vec<Value>),
}

/// The kind of an event, without its data.
#[derive(Clone, Copy, PartialEq, Eq, Structural, Hash, Debug)]
pub enum EventKind {
    TorrentAdded,
    TorrentRemoved,
    PreTorrentRemoved,
    TorrentStateChanged,
    TorrentTrackerStatus,
    TorrentQueueChanged,
    TorrentFolderRenamed,
    TorrentFileRenamed,
    TorrentFinished,
    TorrentResumed,
    TorrentFileCompleted,
    TorrentStorageMoved,
    CreateTorrentProgress,
    NewVersionAvailable,
    SessionStarted,
    SessionPaused,
    SessionResumed,
    ConfigValueChanged,
    PluginEnabled,
    PluginDisabled,
    ClientDisconnected,
    ExternalIp,
    Unrecognized,
}

impl EventKind {
    /// The name under which the daemon announces events of this kind.
    pub open spec fn key_text(self) -> Seq<char> {
        match self {
            EventKind::TorrentAdded => "TorrentAddedEvent"@,
            EventKind::TorrentRemoved => "TorrentRemovedEvent"@,
            EventKind::PreTorrentRemoved => "PreTorrentRemovedEvent"@,
            EventKind::TorrentStateChanged => "TorrentStateChangedEvent"@,
            EventKind::TorrentTrackerStatus => "TorrentTrackerStatusEvent"@,
            EventKind::TorrentQueueChanged => "TorrentQueueChangedEvent"@,
            EventKind::TorrentFolderRenamed => "TorrentFolderRenamedEvent"@,
            EventKind::TorrentFileRenamed => "TorrentFileRenamedEvent"@,
            EventKind::TorrentFinished => "TorrentFinishedEvent"@,
            EventKind::TorrentResumed => "TorrentResumedEvent"@,
            EventKind::TorrentFileCompleted => "TorrentFileCompletedEvent"@,
            EventKind::TorrentStorageMoved => "TorrentStorageMovedEvent"@,
            EventKind::CreateTorrentProgress => "CreateTorrentProgressEvent"@,
            EventKind::NewVersionAvailable => "NewVersionAvailableEvent"@,
            EventKind::SessionStarted => "SessionStartedEvent"@,
            EventKind::SessionPaused => "SessionPausedEvent"@,
            EventKind::SessionResumed => "SessionResumedEvent"@,
            EventKind::ConfigValueChanged => "ConfigValueChangedEvent"@,
            EventKind::PluginEnabled => "PluginEnabledEvent"@,
            EventKind::PluginDisabled => "PluginDisabledEvent"@,
            EventKind::ClientDisconnected => "ClientDisconnectedEvent"@,
            EventKind::ExternalIp => "ExternalIPEvent"@,
            EventKind::Unrecognized => "UnrecognizedEvent"@,
        }
    }

    /// The kind of event that the daemon announces under `name`.
    pub open spec fn named(name: Seq<char>) -> Option<EventKind> {
        if name == "TorrentAddedEvent"@ {
            Some(EventKind::TorrentAdded)
        } else if name == "TorrentRemovedEvent"@ {
            Some(EventKind::TorrentRemoved)
        } else if name == "PreTorrentRemovedEvent"@ {
            Some(EventKind::PreTorrentRemoved)
        } else if name == "TorrentStateChangedEvent"@ {
            Some(EventKind::TorrentStateChanged)
        } else if name == "TorrentTrackerStatusEvent"@ {
            Some(EventKind::TorrentTrackerStatus)
        } else if name == "TorrentQueueChangedEvent"@ {
            Some(EventKind::TorrentQueueChanged)
        } else if name == "TorrentFolderRenamedEvent"@ {
            Some(EventKind::TorrentFolderRenamed)
        } else if name == "TorrentFileRenamedEvent"@ {
            Some(EventKind::TorrentFileRenamed)
        } else if name == "TorrentFinishedEvent"@ {
            Some(EventKind::TorrentFinished)
        } else if name == "TorrentResumedEvent"@ {
            Some(EventKind::TorrentResumed)
        } else if name == "TorrentFileCompletedEvent"@ {
            Some(EventKind::TorrentFileCompleted)
        } else if name == "TorrentStorageMovedEvent"@ {
            Some(EventKind::TorrentStorageMoved)
        } else if name == "CreateTorrentProgressEvent"@ {
            Some(EventKind::CreateTorrentProgress)
        } else if name == "NewVersionAvailableEvent"@ {
            Some(EventKind::NewVersionAvailable)
        } else if name == "SessionStartedEvent"@ {
            Some(EventKind::SessionStarted)
        } else if name == "SessionPausedEvent"@ {
            Some(EventKind::SessionPaused)
        } else if name == "SessionResumedEvent"@ {
            Some(EventKind::SessionResumed)
        } else if name == "ConfigValueChangedEvent"@ {
            Some(EventKind::ConfigValueChanged)
        } else if name == "PluginEnabledEvent"@ {
            Some(EventKind::PluginEnabled)
        } else if name == "PluginDisabledEvent"@ {
            Some(EventKind::PluginDisabled)
        } else if name == "ClientDisconnectedEvent"@ {
            Some(EventKind::ClientDisconnected)
        } else if name == "ExternalIPEvent"@ {
            Some(EventKind::ExternalIp)
        } else {
            None
        }
    }

    /// The name under which the daemon announces events of this kind.
    pub fn key(&self) -> (r: String)
        ensures
            r@ == self.key_text(),
    {
        match self {
            EventKind::TorrentAdded => "TorrentAddedEvent".to_owned(),
            EventKind::TorrentRemoved => "TorrentRemovedEvent".to_owned(),
            EventKind::PreTorrentRemoved => "PreTorrentRemovedEvent".to_owned(),
            EventKind::TorrentStateChanged => "TorrentStateChangedEvent".to_owned(),
            EventKind::TorrentTrackerStatus => "TorrentTrackerStatusEvent".to_owned(),
            EventKind::TorrentQueueChanged => "TorrentQueueChangedEvent".to_owned(),
            EventKind::TorrentFolderRenamed => "TorrentFolderRenamedEvent".to_owned(),
            EventKind::TorrentFileRenamed => "TorrentFileRenamedEvent".to_owned(),
            EventKind::TorrentFinished => "TorrentFinishedEvent".to_owned(),
            EventKind::TorrentResumed => "TorrentResumedEvent".to_owned(),
            EventKind::TorrentFileCompleted => "TorrentFileCompletedEvent".to_owned(),
            EventKind::TorrentStorageMoved => "TorrentStorageMovedEvent".to_owned(),
            EventKind::CreateTorrentProgress => "CreateTorrentProgressEvent".to_owned(),
            EventKind::NewVersionAvailable => "NewVersionAvailableEvent".to_owned(),
            EventKind::SessionStarted => "SessionStartedEvent".to_owned(),
            EventKind::SessionPaused => "SessionPausedEvent".to_owned(),
            EventKind::SessionResumed => "SessionResumedEvent".to_owned(),
            EventKind::ConfigValueChanged => "ConfigValueChangedEvent".to_owned(),
            EventKind::PluginEnabled => "PluginEnabledEvent".to_owned(),
            EventKind::PluginDisabled => "PluginDisabledEvent".to_owned(),
            EventKind::ClientDisconnected => "ClientDisconnectedEvent".to_owned(),
            EventKind::ExternalIp => "ExternalIPEvent".to_owned(),
            EventKind::Unrecognized => "UnrecognizedEvent".to_owned(),
        }
    }

    fn from_name(name: &str) -> (r: Option<EventKind>)
        ensures
            r == EventKind::named(name@),
    {
        if str_eq(name, "TorrentAddedEvent") {
            Some(EventKind::TorrentAdded)
        } else if str_eq(name, "TorrentRemovedEvent") {
            Some(EventKind::TorrentRemoved)
        } else if str_eq(name, "PreTorrentRemovedEvent") {
            Some(EventKind::PreTorrentRemoved)
        } else if str_eq(name, "TorrentStateChangedEvent") {
            Some(EventKind::TorrentStateChanged)
        } else if str_eq(name, "TorrentTrackerStatusEvent") {
            Some(EventKind::TorrentTrackerStatus)
        } else if str_eq(name, "TorrentQueueChangedEvent") {
            Some(EventKind::TorrentQueueChanged)
        } else if str_eq(name, "TorrentFolderRenamedEvent") {
            Some(EventKind::TorrentFolderRenamed)
        } else if str_eq(name, "TorrentFileRenamedEvent") {
            Some(EventKind::TorrentFileRenamed)
        } else if str_eq(name, "TorrentFinishedEvent") {
            Some(EventKind::TorrentFinished)
        } else if str_eq(name, "TorrentResumedEvent") {
            Some(EventKind::TorrentResumed)
        } else if str_eq(name, "TorrentFileCompletedEvent") {
            Some(EventKind::TorrentFileCompleted)
        } else if str_eq(name, "TorrentStorageMovedEvent") {
            Some(EventKind::TorrentStorageMoved)
        } else if str_eq(name, "CreateTorrentProgressEvent") {
            Some(EventKind::CreateTorrentProgress)
        } else if str_eq(name, "NewVersionAvailableEvent") {
            Some(EventKind::NewVersionAvailable)
        } else if str_eq(name, "SessionStartedEvent") {
            Some(EventKind::SessionStarted)
        } else if str_eq(name, "SessionPausedEvent") {
            Some(EventKind::SessionPaused)
        } else if str_eq(name, "SessionResumedEvent") {
            Some(EventKind::SessionResumed)
        } else if str_eq(name, "ConfigValueChangedEvent") {
            Some(EventKind::ConfigValueChanged)
        } else if str_eq(name, "PluginEnabledEvent") {
            Some(EventKind::PluginEnabled)
        } else if str_eq(name, "PluginDisabledEvent") {
            Some(EventKind::PluginDisabled)
        } else if str_eq(name, "ClientDisconnectedEvent") {
            Some(EventKind::ClientDisconnected)
        } else if str_eq(name, "ExternalIPEvent") {
            Some(EventKind::ExternalIp)
        } else {
            None
        }
    }
}

/// The name under which unrecognised events are listed is none of the
/// daemon's names.
proof fn lemma_unrecognized_name_unknown()
    ensures
        EventKind::named(EventKind::Unrecognized.key_text()) is None,
{
    reveal_strlit("TorrentAddedEvent");
    assert("TorrentAddedEvent"@[0] == 'T');
    reveal_strlit("TorrentRemovedEvent");
    assert("TorrentRemovedEvent"@[0] == 'T');
    reveal_strlit("PreTorrentRemovedEvent");
    assert("PreTorrentRemovedEvent"@[0] == 'P');
    reveal_strlit("TorrentStateChangedEvent");
    assert("TorrentStateChangedEvent"@[0] == 'T');
    reveal_strlit("TorrentTrackerStatusEvent");
    assert("TorrentTrackerStatusEvent"@[0] == 'T');
    reveal_strlit("TorrentQueueChangedEvent");
    assert("TorrentQueueChangedEvent"@[0] == 'T');
    reveal_strlit("TorrentFolderRenamedEvent");
    assert("TorrentFolderRenamedEvent"@[0] == 'T');
    reveal_strlit("TorrentFileRenamedEvent");
    assert("TorrentFileRenamedEvent"@[0] == 'T');
    reveal_strlit("TorrentFinishedEvent");
    assert("TorrentFinishedEvent"@[0] == 'T');
    reveal_strlit("TorrentResumedEvent");
    assert("TorrentResumedEvent"@[0] == 'T');
    reveal_strlit("TorrentFileCompletedEvent");
    assert("TorrentFileCompletedEvent"@[0] == 'T');
    reveal_strlit("TorrentStorageMovedEvent");
    assert("TorrentStorageMovedEvent"@[0] == 'T');
    reveal_strlit("CreateTorrentProgressEvent");
    assert("CreateTorrentProgressEvent"@[0] == 'C');
    reveal_strlit("NewVersionAvailableEvent");
    assert("NewVersionAvailableEvent"@[0] == 'N');
    reveal_strlit("SessionStartedEvent");
    assert("SessionStartedEvent"@[0] == 'S');
    reveal_strlit("SessionPausedEvent");
    assert("SessionPausedEvent"@[0] == 'S');
    reveal_strlit("SessionResumedEvent");
    assert("SessionResumedEvent"@[0] == 'S');
    reveal_strlit("ConfigValueChangedEvent");
    assert("ConfigValueChangedEvent"@[0] == 'C');
    reveal_strlit("PluginEnabledEvent");
    assert("PluginEnabledEvent"@[0] == 'P');
    reveal_strlit("PluginDisabledEvent");
    assert("PluginDisabledEvent"@[0] == 'P');
    reveal_strlit("ClientDisconnectedEvent");
    assert("ClientDisconnectedEvent"@[0] == 'C');
    reveal_strlit("ExternalIPEvent");
    assert("ExternalIPEvent"@[0] == 'E');
    reveal_strlit("UnrecognizedEvent");
    assert("UnrecognizedEvent"@[0] == 'U');
}

/// Law: different kinds of events are announced under different names.
pub proof fn law_event_keys_distinct(k1: EventKind, k2: EventKind)
    ensures
        k1 != k2 ==> k1.key_text() != k2.key_text(),
{
    if k1 != EventKind::Unrecognized {
        law_event_key_roundtrip(k1);
    }
    if k2 != EventKind::Unrecognized {
        law_event_key_roundtrip(k2);
    }
    lemma_unrecognized_name_unknown();
}

/// Law: the daemon's names of the kinds of events are all different, so each
/// name reads back as its own kind.
pub proof fn law_event_key_roundtrip(k: EventKind)
    requires
        k != EventKind::Unrecognized,
    ensures
        EventKind::named(k.key_text()) == Some(k),
{
    reveal_strlit("TorrentAddedEvent");
    assert("TorrentAddedEvent"@.len() == 17);
    reveal_strlit("TorrentRemovedEvent");
    assert("TorrentRemovedEvent"@.len() == 19 && "TorrentRemovedEvent"@[0] == 'T' && "TorrentRemovedEvent"@[9] == 'm');
    reveal_strlit("PreTorrentRemovedEvent");
    assert("PreTorrentRemovedEvent"@.len() == 22);
    reveal_strlit("TorrentStateChangedEvent");
    assert("TorrentStateChangedEvent"@.len() == 24 && "TorrentStateChangedEvent"@[0] == 'T' && "TorrentStateChangedEvent"@[7] == 'S' && "TorrentStateChangedEvent"@[9] == 'a');
    reveal_strlit("TorrentTrackerStatusEvent");
    assert("TorrentTrackerStatusEvent"@.len() == 25 && "TorrentTrackerStatusEvent"@[7] == 'T');
    reveal_strlit("TorrentQueueChangedEvent");
    assert("TorrentQueueChangedEvent"@.len() == 24 && "TorrentQueueChangedEvent"@[0] == 'T' && "TorrentQueueChangedEvent"@[7] == 'Q');
    reveal_strlit("TorrentFolderRenamedEvent");
    assert("TorrentFolderRenamedEvent"@.len() == 25 && "TorrentFolderRenamedEvent"@[7] == 'F' && "TorrentFolderRenamedEvent"@[8] == 'o');
    reveal_strlit("TorrentFileRenamedEvent");
    assert("TorrentFileRenamedEvent"@.len() == 23 && "TorrentFileRenamedEvent"@[0] == 'T');
    reveal_strlit("TorrentFinishedEvent");
    assert("TorrentFinishedEvent"@.len() == 20);
    reveal_strlit("TorrentResumedEvent");
    assert("TorrentResumedEvent"@.len() == 19 && "TorrentResumedEvent"@[0] == 'T' && "TorrentResumedEvent"@[9] == 's');
    reveal_strlit("TorrentFileCompletedEvent");
    assert("TorrentFileCompletedEvent"@.len() == 25 && "TorrentFileCompletedEvent"@[7] == 'F' && "TorrentFileCompletedEvent"@[8] == 'i');
    reveal_strlit("TorrentStorageMovedEvent");
    assert("TorrentStorageMovedEvent"@.len() == 24 && "TorrentStorageMovedEvent"@[0] == 'T' && "TorrentStorageMovedEvent"@[7] == 'S' && "TorrentStorageMovedEvent"@[9] == 'o');
    reveal_strlit("CreateTorrentProgressEvent");
    assert("CreateTorrentProgressEvent"@.len() == 26);
    reveal_strlit("NewVersionAvailableEvent");
    assert("NewVersionAvailableEvent"@.len() == 24 && "NewVersionAvailableEvent"@[0] == 'N');
    reveal_strlit("SessionStartedEvent");
    assert("SessionStartedEvent"@.len() == 19 && "SessionStartedEvent"@[0] == 'S' && "SessionStartedEvent"@[7] == 'S');
    reveal_strlit("SessionPausedEvent");
    assert("SessionPausedEvent"@.len() == 18 && "SessionPausedEvent"@[0] == 'S');
    reveal_strlit("SessionResumedEvent");
    assert("SessionResumedEvent"@.len() == 19 && "SessionResumedEvent"@[0] == 'S' && "SessionResumedEvent"@[7] == 'R');
    reveal_strlit("ConfigValueChangedEvent");
    assert("ConfigValueChangedEvent"@.len() == 23 && "ConfigValueChangedEvent"@[0] == 'C' && "ConfigValueChangedEvent"@[1] == 'o');
    reveal_strlit("PluginEnabledEvent");
    assert("PluginEnabledEvent"@.len() == 18 && "PluginEnabledEvent"@[0] == 'P');
    reveal_strlit("PluginDisabledEvent");
    assert("PluginDisabledEvent"@.len() == 19 && "PluginDisabledEvent"@[0] == 'P');
    reveal_strlit("ClientDisconnectedEvent");
    assert("ClientDisconnectedEvent"@.len() == 23 && "ClientDisconnectedEvent"@[0] == 'C' && "ClientDisconnectedEvent"@[1] == 'l');
    reveal_strlit("ExternalIPEvent");
    assert("ExternalIPEvent"@.len() == 15);
}

pub open spec fn arg_int(m: Model) -> Option<int> {
    match m {
        Model::I8(x) => Some(x as int),
        Model::I16(x) => Some(x as int),
        Model::I32(x) => Some(x as int),
        Model::I64(x) => Some(x as int),
        _ => None,
    }
}

pub open spec fn arg_usize(m: Model) -> Option<int> {
    match arg_int(m) {
        Some(x) => if 0 <= x <= usize::MAX {
            Some(x)
        } else {
            None
        },
        None => None,
    }
}

pub open spec fn arg_isize(m: Model) -> Option<int> {
    match arg_int(m) {
        Some(x) => if isize::MIN <= x <= isize::MAX {
            Some(x)
        } else {
            None
        },
        None => None,
    }
}

pub open spec fn arg_str(m: Model) -> Option<Seq<char>> {
    match m {
        Model::Str(s) => Some(s),
        _ => None,
    }
}

pub open spec fn arg_bool(m: Model) -> Option<bool> {
    match m {
        Model::Bool(b) => Some(b),
        _ => None,
    }
}

pub open spec fn arg_hash(m: Model) -> Option<Seq<u8>> {
    match m {
        Model::Str(s) => match decode_hex20(encode_utf8(s)) {
            Ok(h) => Some(h),
            Err(_) => None,
        },
        _ => None,
    }
}

pub open spec fn arg_state(m: Model) -> Option<TorrentState> {
    match m {
        Model::Str(s) => TorrentState::named(s),
        _ => None,
    }
}

/// Whether the arguments fit events of kind `k`: their number and the type of each.
pub open spec fn args_fit(k: EventKind, args: Seq<Model>) -> bool {
    match k {
        EventKind::TorrentAdded => args.len() == 2 && arg_hash(args[0]) is Some && arg_bool(args[1]) is Some,
        EventKind::TorrentRemoved => args.len() == 1 && arg_hash(args[0]) is Some,
        EventKind::PreTorrentRemoved => args.len() == 1 && arg_hash(args[0]) is Some,
        EventKind::TorrentStateChanged => args.len() == 2 && arg_hash(args[0]) is Some && arg_state(args[1]) is Some,
        EventKind::TorrentTrackerStatus => args.len() == 2 && arg_hash(args[0]) is Some && arg_str(args[1]) is Some,
        EventKind::TorrentQueueChanged => args.len() == 0,
        EventKind::TorrentFolderRenamed => args.len() == 3 && arg_hash(args[0]) is Some && arg_str(args[1]) is Some && arg_str(args[2]) is Some,
        EventKind::TorrentFileRenamed => args.len() == 3 && arg_hash(args[0]) is Some && arg_usize(args[1]) is Some && arg_str(args[2]) is Some,
        EventKind::TorrentFinished => args.len() == 1 && arg_hash(args[0]) is Some,
        EventKind::TorrentResumed => args.len() == 1 && arg_hash(args[0]) is Some,
        EventKind::TorrentFileCompleted => args.len() == 2 && arg_hash(args[0]) is Some && arg_usize(args[1]) is Some,
        EventKind::TorrentStorageMoved => args.len() == 2 && arg_hash(args[0]) is Some && arg_str(args[1]) is Some,
        EventKind::CreateTorrentProgress => args.len() == 2 && arg_usize(args[0]) is Some && arg_usize(args[1]) is Some,
        EventKind::NewVersionAvailable => args.len() == 1 && arg_str(args[0]) is Some,
        EventKind::SessionStarted => args.len() == 0,
        EventKind::SessionPaused => args.len() == 0,
        EventKind::SessionResumed => args.len() == 0,
        EventKind::ConfigValueChanged => args.len() == 2 && arg_str(args[0]) is Some,
        EventKind::PluginEnabled => args.len() == 1 && arg_str(args[0]) is Some,
        EventKind::PluginDisabled => args.len() == 1 && arg_str(args[0]) is Some,
        EventKind::ClientDisconnected => args.len() == 1 && arg_isize(args[0]) is Some,
        EventKind::ExternalIp => args.len() == 1 && arg_str(args[0]) is Some,
        EventKind::Unrecognized => false,
    }
}

/// Whether the daemon's announcement `name` with `args` is the event `e`.
pub open spec fn event_from(e: Event, name: Seq<char>, args: Seq<Model>) -> bool {
    match e {
        Event::TorrentAdded(x0, x1) => name == "TorrentAddedEvent"@ && args.len() == 2 && arg_hash(args[0]) == Some(x0@) && arg_bool(args[1]) == Some(x1),
        Event::TorrentRemoved(x0) => name == "TorrentRemovedEvent"@ && args.len() == 1 && arg_hash(args[0]) == Some(x0@),
        Event::PreTorrentRemoved(x0) => name == "PreTorrentRemovedEvent"@ && args.len() == 1 && arg_hash(args[0]) == Some(x0@),
        Event::TorrentStateChanged(x0, x1) => name == "TorrentStateChangedEvent"@ && args.len() == 2 && arg_hash(args[0]) == Some(x0@) && arg_state(args[1]) == Some(x1),
        Event::TorrentTrackerStatus(x0, x1) => name == "TorrentTrackerStatusEvent"@ && args.len() == 2 && arg_hash(args[0]) == Some(x0@) && arg_str(args[1]) == Some(x1@),
        Event::TorrentQueueChanged => name == "TorrentQueueChangedEvent"@ && args.len() == 0,
        Event::TorrentFolderRenamed(x0, x1, x2) => name == "TorrentFolderRenamedEvent"@ && args.len() == 3 && arg_hash(args[0]) == Some(x0@) && arg_str(args[1]) == Some(x1@) && arg_str(args[2]) == Some(x2@),
        Event::TorrentFileRenamed(x0, x1, x2) => name == "TorrentFileRenamedEvent"@ && args.len() == 3 && arg_hash(args[0]) == Some(x0@) && arg_usize(args[1]) == Some(x1 as int) && arg_str(args[2]) == Some(x2@),
        Event::TorrentFinished(x0) => name == "TorrentFinishedEvent"@ && args.len() == 1 && arg_hash(args[0]) == Some(x0@),
        Event::TorrentResumed(x0) => name == "TorrentResumedEvent"@ && args.len() == 1 && arg_hash(args[0]) == Some(x0@),
        Event::TorrentFileCompleted(x0, x1) => name == "TorrentFileCompletedEvent"@ && args.len() == 2 && arg_hash(args[0]) == Some(x0@) && arg_usize(args[1]) == Some(x1 as int),
        Event::TorrentStorageMoved(x0, x1) => name == "TorrentStorageMovedEvent"@ && args.len() == 2 && arg_hash(args[0]) == Some(x0@) && arg_str(args[1]) == Some(x1@),
        Event::CreateTorrentProgress(x0, x1) => name == "CreateTorrentProgressEvent"@ && args.len() == 2 && arg_usize(args[0]) == Some(x0 as int) && arg_usize(args[1]) == Some(x1 as int),
        Event::NewVersionAvailable(x0) => name == "NewVersionAvailableEvent"@ && args.len() == 1 && arg_str(args[0]) == Some(x0@),
        Event::SessionStarted => name == "SessionStartedEvent"@ && args.len() == 0,
        Event::SessionPaused => name == "SessionPausedEvent"@ && args.len() == 0,
        Event::SessionResumed => name == "SessionResumedEvent"@ && args.len() == 0,
        Event::ConfigValueChanged(x0, x1) => name == "ConfigValueChangedEvent"@ && args.len() == 2 && arg_str(args[0]) == Some(x0@) && args[1] == x1.model(),
        Event::PluginEnabled(x0) => name == "PluginEnabledEvent"@ && args.len() == 1 && arg_str(args[0]) == Some(x0@),
        Event::PluginDisabled(x0) => name == "PluginDisabledEvent"@ && args.len() == 1 && arg_str(args[0]) == Some(x0@),
        Event::ClientDisconnected(x0) => name == "ClientDisconnectedEvent"@ && args.len() == 1 && arg_isize(args[0]) == Some(x0 as int),
        Event::ExternalIp(x0) => name == "ExternalIPEvent"@ && args.len() == 1 && arg_str(args[0]) == Some(x0@),
        Event::Unrecognized(..) => false,
    }
}

fn hash_arg(v: &Value) -> (r: Option<InfoHash>)
    ensures
        match arg_hash(v.model()) {
            Some(h) => r matches Some(x) && x@ == h,
            None => r is None,
        },
{
    match v {
        Value::Str(s) => match InfoHash::from_hex(s.as_str()) {
            Ok(h) => Some(h),
            Err(_) => None,
        },
        _ => None,
    }
}

fn bool_arg(v: &Value) -> (r: Option<bool>)
    ensures
        r == arg_bool(v.model()),
{
    match v {
        Value::Bool(b) => Some(*b),
        _ => None,
    }
}

fn str_arg(v: &Value) -> (r: Option<String>)
    ensures
        match arg_str(v.model()) {
            Some(s) => r matches Some(x) && x@ == s,
            None => r is None,
        },
{
    match v {
        Value::Str(s) => Some(s.clone()),
        _ => None,
    }
}

fn state_arg(v: &Value) -> (r: Option<TorrentState>)
    ensures
        r == arg_state(v.model()),
{
    match v {
        Value::Str(s) => match TorrentState::from_str(s.as_str()) {
            Ok(t) => Some(t),
            Err(_) => None,
        },
        _ => None,
    }
}

fn usize_arg(v: &Value) -> (r: Option<usize>)
    ensures
        match arg_usize(v.model()) {
            Some(x) => r == Some(x as usize),
            None => r is None,
        },
{
    match v {
        Value::I8(x) => if *x >= 0 {
            Some(*x as usize)
        } else {
            None
        },
        Value::I16(x) => if *x >= 0 {
            Some(*x as usize)
        } else {
            None
        },
        Value::I32(x) => if *x >= 0 {
            Some(*x as usize)
        } else {
            None
        },
        Value::I64(x) => if *x >= 0 && (*x as u64) <= (usize::MAX as u64) {
            Some(*x as usize)
        } else {
            None
        },
        _ => None,
    }
}

fn isize_arg(v: &Value) -> (r: Option<isize>)
    ensures
        match arg_isize(v.model()) {
            Some(x) => r == Some(x as isize),
            None => r is None,
        },
{
    match v {
        Value::I8(x) => Some(*x as isize),
        Value::I16(x) => Some(*x as isize),
        Value::I32(x) => Some(*x as isize),
        Value::I64(x) => if (isize::MIN as i64) <= *x && *x <= (isize::MAX as i64) {
            Some(*x as isize)
        } else {
            None
        },
        _ => None,
    }
}

impl Event {
    /// The kind of the event.
    pub open spec fn kind_of(self) -> EventKind {
        match self {
            Event::TorrentAdded(..) => EventKind::TorrentAdded,
            Event::TorrentRemoved(..) => EventKind::TorrentRemoved,
            Event::PreTorrentRemoved(..) => EventKind::PreTorrentRemoved,
            Event::TorrentStateChanged(..) => EventKind::TorrentStateChanged,
            Event::TorrentTrackerStatus(..) => EventKind::TorrentTrackerStatus,
            Event::TorrentQueueChanged => EventKind::TorrentQueueChanged,
            Event::TorrentFolderRenamed(..) => EventKind::TorrentFolderRenamed,
            Event::TorrentFileRenamed(..) => EventKind::TorrentFileRenamed,
            Event::TorrentFinished(..) => EventKind::TorrentFinished,
            Event::TorrentResumed(..) => EventKind::TorrentResumed,
            Event::TorrentFileCompleted(..) => EventKind::TorrentFileCompleted,
            Event::TorrentStorageMoved(..) => EventKind::TorrentStorageMoved,
            Event::CreateTorrentProgress(..) => EventKind::CreateTorrentProgress,
            Event::NewVersionAvailable(..) => EventKind::NewVersionAvailable,
            Event::SessionStarted => EventKind::SessionStarted,
            Event::SessionPaused => EventKind::SessionPaused,
            Event::SessionResumed => EventKind::SessionResumed,
            Event::ConfigValueChanged(..) => EventKind::ConfigValueChanged,
            Event::PluginEnabled(..) => EventKind::PluginEnabled,
            Event::PluginDisabled(..) => EventKind::PluginDisabled,
            Event::ClientDisconnected(..) => EventKind::ClientDisconnected,
            Event::ExternalIp(..) => EventKind::ExternalIp,
            Event::Unrecognized(..) => EventKind::Unrecognized,
        }
    }

    pub fn kind(&self) -> (r: EventKind)
        ensures
            r == self.kind_of(),
    {
        match self {
            Event::TorrentAdded(..) => EventKind::TorrentAdded,
            Event::TorrentRemoved(..) => EventKind::TorrentRemoved,
            Event::PreTorrentRemoved(..) => EventKind::PreTorrentRemoved,
            Event::TorrentStateChanged(..) => EventKind::TorrentStateChanged,
            Event::TorrentTrackerStatus(..) => EventKind::TorrentTrackerStatus,
            Event::TorrentQueueChanged => EventKind::TorrentQueueChanged,
            Event::TorrentFolderRenamed(..) => EventKind::TorrentFolderRenamed,
            Event::TorrentFileRenamed(..) => EventKind::TorrentFileRenamed,
            Event::TorrentFinished(..) => EventKind::TorrentFinished,
            Event::TorrentResumed(..) => EventKind::TorrentResumed,
            Event::TorrentFileCompleted(..) => EventKind::TorrentFileCompleted,
            Event::TorrentStorageMoved(..) => EventKind::TorrentStorageMoved,
            Event::CreateTorrentProgress(..) => EventKind::CreateTorrentProgress,
            Event::NewVersionAvailable(..) => EventKind::NewVersionAvailable,
            Event::SessionStarted => EventKind::SessionStarted,
            Event::SessionPaused => EventKind::SessionPaused,
            Event::SessionResumed => EventKind::SessionResumed,
            Event::ConfigValueChanged(..) => EventKind::ConfigValueChanged,
            Event::PluginEnabled(..) => EventKind::PluginEnabled,
            Event::PluginDisabled(..) => EventKind::PluginDisabled,
            Event::ClientDisconnected(..) => EventKind::ClientDisconnected,
            Event::ExternalIp(..) => EventKind::ExternalIp,
            Event::Unrecognized(..) => EventKind::Unrecognized,
        }
    }

    /// Settles an external-address event by whether its text reads as an IP
    /// address (`is_address`, the answer of the address parser). One whose
    /// text does not was not recognised: it becomes the announcement it came
    /// from, the name and the text as its one argument. Any other event is
    /// handed back as it is.
    pub fn with_address_checked(self, is_address: bool) -> (r: Event)
        ensures
            match self {
                Event::ExternalIp(a) => if is_address {
                    r == Event::ExternalIp(a)
                } else {
                    r matches Event::Unrecognized(n, args) && n@ == EventKind::ExternalIp.key_text()
                        && models(args@) == seq![Model::Str(a@)]
                },
                _ => r == self,
            },
    {
        match self {
            Event::ExternalIp(a) => {
                if is_address {
                    Event::ExternalIp(a)
                } else {
                    let name = EventKind::ExternalIp.key();
                    let mut args: Vec<Value> = Vec::new();
                    args.push(Value::Str(a));
                    proof {
                        assert(models(args@) =~= seq![Model::Str(a@)]);
                    }
                    Event::Unrecognized(name, args)
                }
            },
            e => e,
        }
    }

    /// Reads the event that the daemon announced under `name` with `args`:
    /// the name must be that of a kind of event, and the arguments must fit it.
    pub fn from_parts(name: &str, args: &Vec<Value>) -> (r: Option<Event>)
        ensures
            r is Some <==> (EventKind::named(name@) matches Some(k) && args_fit(k, models(args@))),
            r matches Some(e) ==> event_from(e, name@, models(args@)),
    {
        let ghost ms = models(args@);
        assert(forall|i: int| 0 <= i < args@.len() ==> #[trigger] ms[i] == args@[i].model());
        let kind = match EventKind::from_name(name) {
            Some(k) => k,
            None => return None,
        };
        match kind {
            EventKind::TorrentAdded => {
                if args.len() != 2 {
                    return None;
                }
                let x0 = match hash_arg(&args[0]) {
                    Some(x) => x,
                    None => return None,
                };
                let x1 = match bool_arg(&args[1]) {
                    Some(x) => x,
                    None => return None,
                };
                Some(Event::TorrentAdded(x0, x1))
            },
            EventKind::TorrentRemoved => {
                if args.len() != 1 {
                    return None;
                }
                let x0 = match hash_arg(&args[0]) {
                    Some(x) => x,
                    None => return None,
                };
                Some(Event::TorrentRemoved(x0))
            },
            EventKind::PreTorrentRemoved => {
                if args.len() != 1 {
                    return None;
                }
                let x0 = match hash_arg(&args[0]) {
                    Some(x) => x,
                    None => return None,
                };
                Some(Event::PreTorrentRemoved(x0))
            },
            EventKind::TorrentStateChanged => {
                if args.len() != 2 {
                    return None;
                }
                let x0 = match hash_arg(&args[0]) {
                    Some(x) => x,
                    None => return None,
                };
                let x1 = match state_arg(&args[1]) {
                    Some(x) => x,
                    None => return None,
                };
                Some(Event::TorrentStateChanged(x0, x1))
            },
            EventKind::TorrentTrackerStatus => {
                if args.len() != 2 {
                    return None;
                }
                let x0 = match hash_arg(&args[0]) {
                    Some(x) => x,
                    None => return None,
                };
                let x1 = match str_arg(&args[1]) {
                    Some(x) => x,
                    None => return None,
                };
                Some(Event::TorrentTrackerStatus(x0, x1))
            },
            EventKind::TorrentQueueChanged => {
                if args.len() != 0 {
                    return None;
                }
                Some(Event::TorrentQueueChanged)
            },
            EventKind::TorrentFolderRenamed => {
                if args.len() != 3 {
                    return None;
                }
                let x0 = match hash_arg(&args[0]) {
                    Some(x) => x,
                    None => return None,
                };
                let x1 = match str_arg(&args[1]) {
                    Some(x) => x,
                    None => return None,
                };
                let x2 = match str_arg(&args[2]) {
                    Some(x) => x,
                    None => return None,
                };
                Some(Event::TorrentFolderRenamed(x0, x1, x2))
            },
            EventKind::TorrentFileRenamed => {
                if args.len() != 3 {
                    return None;
                }
                let x0 = match hash_arg(&args[0]) {
                    Some(x) => x,
                    None => return None,
                };
                let x1 = match usize_arg(&args[1]) {
                    Some(x) => x,
                    None => return None,
                };
                let x2 = match str_arg(&args[2]) {
                    Some(x) => x,
                    None => return None,
                };
                Some(Event::TorrentFileRenamed(x0, x1, x2))
            },
            EventKind::TorrentFinished => {
                if args.len() != 1 {
                    return None;
                }
                let x0 = match hash_arg(&args[0]) {
                    Some(x) => x,
                    None => return None,
                };
                Some(Event::TorrentFinished(x0))
            },
            EventKind::TorrentResumed => {
                if args.len() != 1 {
                    return None;
                }
                let x0 = match hash_arg(&args[0]) {
                    Some(x) => x,
                    None => return None,
                };
                Some(Event::TorrentResumed(x0))
            },
            EventKind::TorrentFileCompleted => {
                if args.len() != 2 {
                    return None;
                }
                let x0 = match hash_arg(&args[0]) {
                    Some(x) => x,
                    None => return None,
                };
                let x1 = match usize_arg(&args[1]) {
                    Some(x) => x,
                    None => return None,
                };
                Some(Event::TorrentFileCompleted(x0, x1))
            },
            EventKind::TorrentStorageMoved => {
                if args.len() != 2 {
                    return None;
                }
                let x0 = match hash_arg(&args[0]) {
                    Some(x) => x,
                    None => return None,
                };
                let x1 = match str_arg(&args[1]) {
                    Some(x) => x,
                    None => return None,
                };
                Some(Event::TorrentStorageMoved(x0, x1))
            },
            EventKind::CreateTorrentProgress => {
                if args.len() != 2 {
                    return None;
                }
                let x0 = match usize_arg(&args[0]) {
                    Some(x) => x,
                    None => return None,
                };
                let x1 = match usize_arg(&args[1]) {
                    Some(x) => x,
                    None => return None,
                };
                Some(Event::CreateTorrentProgress(x0, x1))
            },
            EventKind::NewVersionAvailable => {
                if args.len() != 1 {
                    return None;
                }
                let x0 = match str_arg(&args[0]) {
                    Some(x) => x,
                    None => return None,
                };
                Some(Event::NewVersionAvailable(x0))
            },
            EventKind::SessionStarted => {
                if args.len() != 0 {
                    return None;
                }
                Some(Event::SessionStarted)
            },
            EventKind::SessionPaused => {
                if args.len() != 0 {
                    return None;
                }
                Some(Event::SessionPaused)
            },
            EventKind::SessionResumed => {
                if args.len() != 0 {
                    return None;
                }
                Some(Event::SessionResumed)
            },
            EventKind::ConfigValueChanged => {
                if args.len() != 2 {
                    return None;
                }
                let x0 = match str_arg(&args[0]) {
                    Some(x) => x,
                    None => return None,
                };
                let x1 = args[1].deep_clone();
                Some(Event::ConfigValueChanged(x0, x1))
            },
            EventKind::PluginEnabled => {
                if args.len() != 1 {
                    return None;
                }
                let x0 = match str_arg(&args[0]) {
                    Some(x) => x,
                    None => return None,
                };
                Some(Event::PluginEnabled(x0))
            },
            EventKind::PluginDisabled => {
                if args.len() != 1 {
                    return None;
                }
                let x0 = match str_arg(&args[0]) {
                    Some(x) => x,
                    None => return None,
                };
                Some(Event::PluginDisabled(x0))
            },
            EventKind::ClientDisconnected => {
                if args.len() != 1 {
                    return None;
                }
                let x0 = match isize_arg(&args[0]) {
                    Some(x) => x,
                    None => return None,
                };
                Some(Event::ClientDisconnected(x0))
            },
            EventKind::ExternalIp => {
                if args.len() != 1 {
                    return None;
                }
                let x0 = match str_arg(&args[0]) {
                    Some(x) => x,
                    None => return None,
                };
                Some(Event::ExternalIp(x0))
            },
            EventKind::Unrecognized => None,
        }
    }
}

/// Law: an event read from an announcement is of the kind whose name the
/// announcement carried.
pub proof fn law_event_kind_matches_name(e: Event, name: Seq<char>, args: Seq<Model>)
    requires
        event_from(e, name, args),
    ensures
        e.kind_of().key_text() == name,
        e.kind_of() != EventKind::Unrecognized,
{
}

/// Law: the daemon's events and the arguments that Deluge sends with each.
/// Each name stands for its kind; each kind takes exactly its number of
/// arguments; arguments of the right types fit, and read as the event that
/// holds them (an infohash as the bytes of its hex text, a state by its name).
pub proof fn law_event_signatures(
    e: Event,
    args: Seq<Model>,
    h: Seq<char>,
    hb: Seq<u8>,
    t: Seq<char>,
    s1: Seq<char>,
    s2: Seq<char>,
    b: bool,
    n1: i32,
    n2: i32,
    v: Model,
)
    ensures
        EventKind::named("TorrentAddedEvent"@) == Some(EventKind::TorrentAdded),
        EventKind::named("TorrentRemovedEvent"@) == Some(EventKind::TorrentRemoved),
        EventKind::named("PreTorrentRemovedEvent"@) == Some(EventKind::PreTorrentRemoved),
        EventKind::named("TorrentStateChangedEvent"@) == Some(EventKind::TorrentStateChanged),
        EventKind::named("TorrentTrackerStatusEvent"@) == Some(EventKind::TorrentTrackerStatus),
        EventKind::named("TorrentQueueChangedEvent"@) == Some(EventKind::TorrentQueueChanged),
        EventKind::named("TorrentFolderRenamedEvent"@) == Some(EventKind::TorrentFolderRenamed),
        EventKind::named("TorrentFileRenamedEvent"@) == Some(EventKind::TorrentFileRenamed),
        EventKind::named("TorrentFinishedEvent"@) == Some(EventKind::TorrentFinished),
        EventKind::named("TorrentResumedEvent"@) == Some(EventKind::TorrentResumed),
        EventKind::named("TorrentFileCompletedEvent"@) == Some(EventKind::TorrentFileCompleted),
        EventKind::named("TorrentStorageMovedEvent"@) == Some(EventKind::TorrentStorageMoved),
        EventKind::named("CreateTorrentProgressEvent"@) == Some(EventKind::CreateTorrentProgress),
        EventKind::named("NewVersionAvailableEvent"@) == Some(EventKind::NewVersionAvailable),
        EventKind::named("SessionStartedEvent"@) == Some(EventKind::SessionStarted),
        EventKind::named("SessionPausedEvent"@) == Some(EventKind::SessionPaused),
        EventKind::named("SessionResumedEvent"@) == Some(EventKind::SessionResumed),
        EventKind::named("ConfigValueChangedEvent"@) == Some(EventKind::ConfigValueChanged),
        EventKind::named("PluginEnabledEvent"@) == Some(EventKind::PluginEnabled),
        EventKind::named("PluginDisabledEvent"@) == Some(EventKind::PluginDisabled),
        EventKind::named("ClientDisconnectedEvent"@) == Some(EventKind::ClientDisconnected),
        EventKind::named("ExternalIPEvent"@) == Some(EventKind::ExternalIp),
        args_fit(EventKind::TorrentAdded, args) ==> args.len() == 2,
        args_fit(EventKind::TorrentRemoved, args) ==> args.len() == 1,
        args_fit(EventKind::PreTorrentRemoved, args) ==> args.len() == 1,
        args_fit(EventKind::TorrentStateChanged, args) ==> args.len() == 2,
        args_fit(EventKind::TorrentTrackerStatus, args) ==> args.len() == 2,
        args_fit(EventKind::TorrentQueueChanged, args) ==> args.len() == 0,
        args_fit(EventKind::TorrentFolderRenamed, args) ==> args.len() == 3,
        args_fit(EventKind::TorrentFileRenamed, args) ==> args.len() == 3,
        args_fit(EventKind::TorrentFinished, args) ==> args.len() == 1,
        args_fit(EventKind::TorrentResumed, args) ==> args.len() == 1,
        args_fit(EventKind::TorrentFileCompleted, args) ==> args.len() == 2,
        args_fit(EventKind::TorrentStorageMoved, args) ==> args.len() == 2,
        args_fit(EventKind::CreateTorrentProgress, args) ==> args.len() == 2,
        args_fit(EventKind::NewVersionAvailable, args) ==> args.len() == 1,
        args_fit(EventKind::SessionStarted, args) ==> args.len() == 0,
        args_fit(EventKind::SessionPaused, args) ==> args.len() == 0,
        args_fit(EventKind::SessionResumed, args) ==> args.len() == 0,
        args_fit(EventKind::ConfigValueChanged, args) ==> args.len() == 2,
        args_fit(EventKind::PluginEnabled, args) ==> args.len() == 1,
        args_fit(EventKind::PluginDisabled, args) ==> args.len() == 1,
        args_fit(EventKind::ClientDisconnected, args) ==> args.len() == 1,
        args_fit(EventKind::ExternalIp, args) ==> args.len() == 1,
        (decode_hex20(encode_utf8(h)) == Ok::<Seq<u8>, HexError>(hb)) ==> (args_fit(EventKind::TorrentAdded, seq![Model::Str(h), Model::Bool(b)]) && (event_from(e, "TorrentAddedEvent"@, seq![Model::Str(h), Model::Bool(b)]) ==> (e matches Event::TorrentAdded(x, y) && x@ == hb && y == b))),
        (decode_hex20(encode_utf8(h)) == Ok::<Seq<u8>, HexError>(hb)) ==> (args_fit(EventKind::TorrentRemoved, seq![Model::Str(h)]) && (event_from(e, "TorrentRemovedEvent"@, seq![Model::Str(h)]) ==> (e matches Event::TorrentRemoved(x) && x@ == hb))),
        (decode_hex20(encode_utf8(h)) == Ok::<Seq<u8>, HexError>(hb)) ==> (args_fit(EventKind::PreTorrentRemoved, seq![Model::Str(h)]) && (event_from(e, "PreTorrentRemovedEvent"@, seq![Model::Str(h)]) ==> (e matches Event::PreTorrentRemoved(x) && x@ == hb))),
        (decode_hex20(encode_utf8(h)) == Ok::<Seq<u8>, HexError>(hb) && TorrentState::named(t) is Some) ==> (args_fit(EventKind::TorrentStateChanged, seq![Model::Str(h), Model::Str(t)]) && (event_from(e, "TorrentStateChangedEvent"@, seq![Model::Str(h), Model::Str(t)]) ==> (e matches Event::TorrentStateChanged(x, y) && x@ == hb && TorrentState::named(t) == Some(y)))),
        (decode_hex20(encode_utf8(h)) == Ok::<Seq<u8>, HexError>(hb)) ==> (args_fit(EventKind::TorrentTrackerStatus, seq![Model::Str(h), Model::Str(s1)]) && (event_from(e, "TorrentTrackerStatusEvent"@, seq![Model::Str(h), Model::Str(s1)]) ==> (e matches Event::TorrentTrackerStatus(x, y) && x@ == hb && y@ == s1))),
        (args_fit(EventKind::TorrentQueueChanged, Seq::<Model>::empty()) && (event_from(e, "TorrentQueueChangedEvent"@, Seq::<Model>::empty()) ==> (e matches Event::TorrentQueueChanged && true))),
        (decode_hex20(encode_utf8(h)) == Ok::<Seq<u8>, HexError>(hb)) ==> (args_fit(EventKind::TorrentFolderRenamed, seq![Model::Str(h), Model::Str(s1), Model::Str(s2)]) && (event_from(e, "TorrentFolderRenamedEvent"@, seq![Model::Str(h), Model::Str(s1), Model::Str(s2)]) ==> (e matches Event::TorrentFolderRenamed(x, y, z) && x@ == hb && y@ == s1 && z@ == s2))),
        (decode_hex20(encode_utf8(h)) == Ok::<Seq<u8>, HexError>(hb) && n1 >= 0) ==> (args_fit(EventKind::TorrentFileRenamed, seq![Model::Str(h), Model::I32(n1), Model::Str(s1)]) && (event_from(e, "TorrentFileRenamedEvent"@, seq![Model::Str(h), Model::I32(n1), Model::Str(s1)]) ==> (e matches Event::TorrentFileRenamed(x, y, z) && x@ == hb && y as int == n1 && z@ == s1))),
        (decode_hex20(encode_utf8(h)) == Ok::<Seq<u8>, HexError>(hb)) ==> (args_fit(EventKind::TorrentFinished, seq![Model::Str(h)]) && (event_from(e, "TorrentFinishedEvent"@, seq![Model::Str(h)]) ==> (e matches Event::TorrentFinished(x) && x@ == hb))),
        (decode_hex20(encode_utf8(h)) == Ok::<Seq<u8>, HexError>(hb)) ==> (args_fit(EventKind::TorrentResumed, seq![Model::Str(h)]) && (event_from(e, "TorrentResumedEvent"@, seq![Model::Str(h)]) ==> (e matches Event::TorrentResumed(x) && x@ == hb))),
        (decode_hex20(encode_utf8(h)) == Ok::<Seq<u8>, HexError>(hb) && n1 >= 0) ==> (args_fit(EventKind::TorrentFileCompleted, seq![Model::Str(h), Model::I32(n1)]) && (event_from(e, "TorrentFileCompletedEvent"@, seq![Model::Str(h), Model::I32(n1)]) ==> (e matches Event::TorrentFileCompleted(x, y) && x@ == hb && y as int == n1))),
        (decode_hex20(encode_utf8(h)) == Ok::<Seq<u8>, HexError>(hb)) ==> (args_fit(EventKind::TorrentStorageMoved, seq![Model::Str(h), Model::Str(s1)]) && (event_from(e, "TorrentStorageMovedEvent"@, seq![Model::Str(h), Model::Str(s1)]) ==> (e matches Event::TorrentStorageMoved(x, y) && x@ == hb && y@ == s1))),
        (n1 >= 0 && n2 >= 0) ==> (args_fit(EventKind::CreateTorrentProgress, seq![Model::I32(n1), Model::I32(n2)]) && (event_from(e, "CreateTorrentProgressEvent"@, seq![Model::I32(n1), Model::I32(n2)]) ==> (e matches Event::CreateTorrentProgress(x, y) && x as int == n1 && y as int == n2))),
        (args_fit(EventKind::NewVersionAvailable, seq![Model::Str(s1)]) && (event_from(e, "NewVersionAvailableEvent"@, seq![Model::Str(s1)]) ==> (e matches Event::NewVersionAvailable(x) && x@ == s1))),
        (args_fit(EventKind::SessionStarted, Seq::<Model>::empty()) && (event_from(e, "SessionStartedEvent"@, Seq::<Model>::empty()) ==> (e matches Event::SessionStarted && true))),
        (args_fit(EventKind::SessionPaused, Seq::<Model>::empty()) && (event_from(e, "SessionPausedEvent"@, Seq::<Model>::empty()) ==> (e matches Event::SessionPaused && true))),
        (args_fit(EventKind::SessionResumed, Seq::<Model>::empty()) && (event_from(e, "SessionResumedEvent"@, Seq::<Model>::empty()) ==> (e matches Event::SessionResumed && true))),
        (args_fit(EventKind::ConfigValueChanged, seq![Model::Str(s1), v]) && (event_from(e, "ConfigValueChangedEvent"@, seq![Model::Str(s1), v]) ==> (e matches Event::ConfigValueChanged(x, y) && x@ == s1 && y.model() == v))),
        (args_fit(EventKind::PluginEnabled, seq![Model::Str(s1)]) && (event_from(e, "PluginEnabledEvent"@, seq![Model::Str(s1)]) ==> (e matches Event::PluginEnabled(x) && x@ == s1))),
        (args_fit(EventKind::PluginDisabled, seq![Model::Str(s1)]) && (event_from(e, "PluginDisabledEvent"@, seq![Model::Str(s1)]) ==> (e matches Event::PluginDisabled(x) && x@ == s1))),
        (args_fit(EventKind::ClientDisconnected, seq![Model::I32(n1)]) && (event_from(e, "ClientDisconnectedEvent"@, seq![Model::I32(n1)]) ==> (e matches Event::ClientDisconnected(x) && x as int == n1))),
        (args_fit(EventKind::ExternalIp, seq![Model::Str(s1)]) && (event_from(e, "ExternalIPEvent"@, seq![Model::Str(s1)]) ==> (e matches Event::ExternalIp(x) && x@ == s1))),
{
    law_event_key_roundtrip(EventKind::TorrentAdded);
    law_event_key_roundtrip(EventKind::TorrentRemoved);
    law_event_key_roundtrip(EventKind::PreTorrentRemoved);
    law_event_key_roundtrip(EventKind::TorrentStateChanged);
    law_event_key_roundtrip(EventKind::TorrentTrackerStatus);
    law_event_key_roundtrip(EventKind::TorrentQueueChanged);
    law_event_key_roundtrip(EventKind::TorrentFolderRenamed);
    law_event_key_roundtrip(EventKind::TorrentFileRenamed);
    law_event_key_roundtrip(EventKind::TorrentFinished);
    law_event_key_roundtrip(EventKind::TorrentResumed);
    law_event_key_roundtrip(EventKind::TorrentFileCompleted);
    law_event_key_roundtrip(EventKind::TorrentStorageMoved);
    law_event_key_roundtrip(EventKind::CreateTorrentProgress);
    law_event_key_roundtrip(EventKind::NewVersionAvailable);
    law_event_key_roundtrip(EventKind::SessionStarted);
    law_event_key_roundtrip(EventKind::SessionPaused);
    law_event_key_roundtrip(EventKind::SessionResumed);
    law_event_key_roundtrip(EventKind::ConfigValueChanged);
    law_event_key_roundtrip(EventKind::PluginEnabled);
    law_event_key_roundtrip(EventKind::PluginDisabled);
    law_event_key_roundtrip(EventKind::ClientDisconnected);
    law_event_key_roundtrip(EventKind::ExternalIp);
}

} // verus!
