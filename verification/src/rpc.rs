//! Data model for the RPC wire protocol: method calls with their argument
//! records, torrent selectors, and response envelopes.
//!
//! Argument records type the fields the mediator reads or rewrites; every
//! record also carries a `rest` list of raw key/value pairs so that fields
//! the mediator does not interpret pass through unchanged in both directions.

use vstd::prelude::*;
use vstd::string::StringExecFns;

verus! {

/// Raw JSON values ride through the mediator unread; the type is declared
/// so that fields and signatures can carry `serde_json::Value` opaquely.
#[verifier::external_type_specification]
#[verifier::external_body]
pub struct ExJsonValue(serde_json::Value);

/// Uninterpreted key/value pairs preserved verbatim across mediation.
pub type JsonPairs = Vec<(String, serde_json::Value)>;

/// A value that the wire protocol writes either as an integer or as a boolean.
#[derive(Clone, Copy, Debug, PartialEq, Eq, Structural)]
pub enum IntBool {
    Int(i32),
    Bool(bool),
}

impl IntBool {
    /// The boolean a wire value stands for: an integer counts as true
    /// exactly when it is non-zero.
    pub open spec fn spec_bool(self) -> bool {
        match self {
            IntBool::Int(i) => i != 0,
            IntBool::Bool(b) => b,
        }
    }

    pub fn as_bool(&self) -> (r: bool)
        ensures
            r == self.spec_bool(),
    {
        match self {
            IntBool::Int(i) => *i != 0,
            IntBool::Bool(b) => *b,
        }
    }

    /// The integer a wire value stands for: a boolean counts as 0 or 1.
    pub fn as_int(&self) -> (r: i32)
        ensures
            match self {
                IntBool::Int(i) => r == i,
                IntBool::Bool(b) => r == if *b {
                    1int
                } else {
                    0int
                },
            },
    {
        match self {
            IntBool::Int(i) => *i,
            IntBool::Bool(b) => if *b {
                1
            } else {
                0
            },
        }
    }
}

/// One torrent identifier: a numeric id or a 40-hex sha1 string.
pub enum TorrentId {
    Id(i32),
    Sha1(String),
}

impl Clone for TorrentId {
    fn clone(&self) -> (r: Self)
        ensures
            r == *self,
    {
        match self {
            TorrentId::Id(i) => TorrentId::Id(*i),
            TorrentId::Sha1(s) => TorrentId::Sha1(s.clone()),
        }
    }
}

/// The named selector tokens of the wire protocol.
#[derive(Clone, Copy, PartialEq, Eq, Structural)]
pub enum TorrentIdSet {
    RecentlyActive,
}

/// The `ids` selector of a request: one id, an explicit list, or a token.
pub enum TorrentIds {
    Id(i32),
    Ids(Vec<TorrentId>),
    Named(TorrentIdSet),
}

/// Two identifiers name the same torrent: equal numeric ids, or sha1
/// strings with the same characters.
pub open spec fn spec_id_like(a: TorrentId, b: TorrentId) -> bool {
    match (a, b) {
        (TorrentId::Id(x), TorrentId::Id(y)) => x == y,
        (TorrentId::Sha1(s), TorrentId::Sha1(t)) => s@ == t@,
        _ => false,
    }
}

/// Two selectors denote the same target set, compared structurally with
/// sha1 strings compared by their characters.
pub open spec fn spec_ids_like(a: TorrentIds, b: TorrentIds) -> bool {
    match (a, b) {
        (TorrentIds::Id(x), TorrentIds::Id(y)) => x == y,
        (TorrentIds::Ids(v), TorrentIds::Ids(w)) => v@.len() == w@.len()
            && (forall|j: int| 0 <= j < v@.len() ==> spec_id_like(v@[j], w@[j])),
        (TorrentIds::Named(x), TorrentIds::Named(y)) => x == y,
        _ => false,
    }
}

/// `spec_ids_like`, lifted to the optional selector of an argument record.
pub open spec fn spec_opt_ids_like(a: Option<TorrentIds>, b: Option<TorrentIds>) -> bool {
    match (a, b) {
        (None, None) => true,
        (Some(x), Some(y)) => spec_ids_like(x, y),
        _ => false,
    }
}

impl Clone for TorrentIds {
    fn clone(&self) -> (r: Self)
        ensures
            spec_ids_like(r, *self),
    {
        match self {
            TorrentIds::Id(i) => TorrentIds::Id(*i),
            TorrentIds::Ids(v) => {
                let mut out: Vec<TorrentId> = Vec::new();
                let n = v.len();
                let mut i: usize = 0;
                while i < n
                    invariant
                        i <= n,
                        n == v@.len(),
                        out@.len() == i,
                        forall|j: int| 0 <= j < i ==> out@[j] == v@[j],
                    decreases n - i,
                {
                    out.push(v[i].clone());
                    i += 1;
                }
                assert forall|j: int| 0 <= j < v@.len() implies spec_id_like(out@[j], v@[j]) by {
                    assert(out@[j] == v@[j]);
                    match v@[j] {
                        TorrentId::Id(_) => {},
                        TorrentId::Sha1(_) => {},
                    }
                }
                TorrentIds::Ids(out)
            },
            TorrentIds::Named(s) => TorrentIds::Named(*s),
        }
    }
}

/// A torrent entry as the upstream reports it: the id, the download
/// directory the filters read, and every other field verbatim.
pub struct Torrent {
    pub id: TorrentId,
    pub download_dir: String,
    pub extra: JsonPairs,
}

/// One tracker entry of a torrent.
pub struct Tracker {
    pub id: i32,
    pub tier: i32,
    pub announce: String,
    pub scrape: String,
}

/// The `torrents` list of a torrent-get response, with the unread fields
/// beside it preserved verbatim.
pub struct Torrents {
    pub torrents: Vec<Torrent>,
    pub extra: JsonPairs,
}

/// Session settings as reported by session-get: the forced download
/// directory is the one field the mediator rewrites; the rest passes
/// through verbatim.
pub struct SessionArguments {
    pub download_dir: String,
    pub rest: JsonPairs,
}

/// Aggregate transfer counters.
#[derive(Clone, Copy, PartialEq, Eq, Structural)]
pub struct Stats {
    pub uploaded_bytes: i32,
    pub downloaded_bytes: i32,
    pub files_added: i32,
    pub session_count: i32,
    pub seconds_active: i32,
}

/// The session-stats response body.
#[derive(Clone, Copy, PartialEq, Eq, Structural)]
pub struct SessionStats {
    pub active_torrent_count: i32,
    pub download_speed: i32,
    pub paused_torrent_count: i32,
    pub torrent_count: i32,
    pub upload_speed: i32,
    pub cumulative_stats: Stats,
    pub current_stats: Stats,
}

/// The unit tables of a session-get response.
pub struct SessionUnits {
    pub speed_units: Vec<String>,
    pub speed_bytes: i32,
    pub size_units: Vec<String>,
    pub size_bytes: i32,
    pub memory_units: Vec<String>,
    pub memory_bytes: i32,
}

/// Arguments of session-set; the mediator forwards them unread.
pub struct SessionSet {
    pub rest: JsonPairs,
}

/// Arguments of session-get.
pub struct SessionGet {
    pub fields: Vec<String>,
    pub rest: JsonPairs,
}

/// Arguments of torrent-add.
pub struct TorrentAdd {
    pub cookies: Option<String>,
    pub download_dir: String,
    pub filename: Option<String>,
    pub labels: Vec<String>,
    pub metainfo: String,
    pub paused: bool,
    pub peer_limit: Option<i32>,
    pub bandwidth_priority: Option<i32>,
    pub files_wanted: Vec<i32>,
    pub files_unwanted: Vec<i32>,
    pub priority_high: Vec<i32>,
    pub priority_low: Vec<i32>,
    pub priority_normal: Vec<i32>,
    pub rest: JsonPairs,
}

/// Arguments of the torrent actions (start, start-now, stop, verify,
/// reannounce).
pub struct TorrentAction {
    pub ids: Option<TorrentIds>,
    pub rest: JsonPairs,
}

/// Arguments of torrent-set: the selector, the fields the mediator
/// checks or rewrites, and the rest verbatim.
pub struct TorrentSet {
    pub ids: Option<TorrentIds>,
    pub location: Option<String>,
    pub tracker_add: Vec<String>,
    pub tracker_remove: Vec<String>,
    pub tracker_replace: Vec<String>,
    pub rest: JsonPairs,
}

/// The requested layout of a torrent-get response.
#[derive(Clone, Copy, PartialEq, Eq, Structural)]
pub enum TorrentGetFormat {
    Objects,
    Table,
}

impl TorrentGetFormat {
    pub fn is_objects(&self) -> (r: bool)
        ensures
            r == (*self is Objects),
    {
        match self {
            TorrentGetFormat::Objects => true,
            TorrentGetFormat::Table => false,
        }
    }
}

impl Default for TorrentGetFormat {
    fn default() -> (r: Self)
        ensures
            r is Objects,
    {
        TorrentGetFormat::Objects
    }
}

/// Arguments of torrent-get.
pub struct TorrentGet {
    pub ids: Option<TorrentIds>,
    pub fields: Vec<String>,
    pub format: TorrentGetFormat,
    pub rest: JsonPairs,
}

/// The standard field selection a client asks for by default.
pub open spec fn spec_default_torrent_get_fields() -> Seq<Seq<char>> {
    seq![
        "id"@,
        "addedDate"@,
        "name"@,
        "totalSize"@,
        "error"@,
        "errorString"@,
        "eta"@,
        "isFinished"@,
        "isStalled"@,
        "leftUntilDone"@,
        "metadataPercentComplete"@,
        "peersConnected"@,
        "peersGettingFromUs"@,
        "peersSendingToUs"@,
        "percentDone"@,
        "queuePosition"@,
        "rateDownload"@,
        "rateUpload"@,
        "recheckProgress"@,
        "seedRatioMode"@,
        "seedRatioLimit"@,
        "sizeWhenDone"@,
        "status"@,
        "trackers"@,
        "downloadDir"@,
        "uploadedEver"@,
        "uploadRatio"@,
        "webseedsSendingToUs"@,
    ]
}

impl Default for TorrentGet {
    /// A torrent-get for every torrent, asking for the standard fields.
    fn default() -> (r: Self)
        ensures
            r.ids is None,
            r.format is Objects,
            r.rest@.len() == 0,
            r.fields@.map_values(|s: String| s@) == spec_default_torrent_get_fields(),
    {
        let mut fields: Vec<String> = Vec::new();
        fields.push(String::from_str("id"));
        fields.push(String::from_str("addedDate"));
        fields.push(String::from_str("name"));
        fields.push(String::from_str("totalSize"));
        fields.push(String::from_str("error"));
        fields.push(String::from_str("errorString"));
        fields.push(String::from_str("eta"));
        fields.push(String::from_str("isFinished"));
        fields.push(String::from_str("isStalled"));
        fields.push(String::from_str("leftUntilDone"));
        fields.push(String::from_str("metadataPercentComplete"));
        fields.push(String::from_str("peersConnected"));
        fields.push(String::from_str("peersGettingFromUs"));
        fields.push(String::from_str("peersSendingToUs"));
        fields.push(String::from_str("percentDone"));
        fields.push(String::from_str("queuePosition"));
        fields.push(String::from_str("rateDownload"));
        fields.push(String::from_str("rateUpload"));
        fields.push(String::from_str("recheckProgress"));
        fields.push(String::from_str("seedRatioMode"));
        fields.push(String::from_str("seedRatioLimit"));
        fields.push(String::from_str("sizeWhenDone"));
        fields.push(String::from_str("status"));
        fields.push(String::from_str("trackers"));
        fields.push(String::from_str("downloadDir"));
        fields.push(String::from_str("uploadedEver"));
        fields.push(String::from_str("uploadRatio"));
        fields.push(String::from_str("webseedsSendingToUs"));
        proof {
            assert(fields@.map_values(|s: String| s@) =~= spec_default_torrent_get_fields());
        }
        TorrentGet { ids: None, fields, format: TorrentGetFormat::Objects, rest: Vec::new() }
    }
}


/// Arguments of torrent-remove.
pub struct TorrentRemove {
    pub ids: Option<TorrentIds>,
    pub delete_local_data: Option<bool>,
    pub rest: JsonPairs,
}

/// Arguments of torrent-set-location.
pub struct TorrentSetLocation {
    pub ids: Option<TorrentIds>,
    pub location: String,
    pub move_data: bool,
    pub rest: JsonPairs,
}

/// Arguments of torrent-rename-path.
pub struct TorrentRenamePath {
    pub ids: Option<TorrentIds>,
    pub path: String,
    pub name: String,
    pub rest: JsonPairs,
}

/// Arguments of the queue movement calls.
pub struct QueueMovement {
    pub ids: Option<TorrentIds>,
    pub rest: JsonPairs,
}

/// Arguments of free-space.
pub struct FreeSpace {
    pub path: String,
    pub rest: JsonPairs,
}

/// The kebab-case method names of the protocol, used by ACL allow-lists.
#[derive(Clone, Copy, Debug, PartialEq, Eq, Structural)]
pub enum MethodName {
    TorrentStart,
    TorrentStartNow,
    TorrentStop,
    TorrentVerify,
    TorrentReannounce,
    TorrentSet,
    TorrentGet,
    TorrentAdd,
    TorrentRemove,
    TorrentSetLocation,
    TorrentRenamePath,
    SessionSet,
    SessionGet,
    SessionStats,
    BlocklistUpdate,
    PortTest,
    SessionClose,
    QueueMoveTop,
    QueueMoveUp,
    QueueMoveDown,
    QueueMoveBottom,
    FreeSpace,
}

/// One RPC method call with its typed arguments.
pub enum MethodCall {
    TorrentStart { arguments: TorrentAction },
    TorrentStartNow { arguments: TorrentAction },
    TorrentStop { arguments: TorrentAction },
    TorrentVerify { arguments: TorrentAction },
    TorrentReannounce { arguments: TorrentAction },
    TorrentSet { arguments: TorrentSet },
    TorrentGet { arguments: TorrentGet },
    TorrentAdd { arguments: TorrentAdd },
    TorrentRemove { arguments: TorrentRemove },
    TorrentSetLocation { arguments: TorrentSetLocation },
    TorrentRenamePath { arguments: TorrentRenamePath },
    SessionSet { arguments: SessionSet },
    SessionGet { arguments: SessionGet },
    SessionStats,
    BlocklistUpdate,
    PortTest,
    SessionClose,
    QueueMoveTop { arguments: QueueMovement },
    QueueMoveUp { arguments: QueueMovement },
    QueueMoveDown { arguments: QueueMovement },
    QueueMoveBottom { arguments: QueueMovement },
    FreeSpace { arguments: FreeSpace },
}

impl MethodCall {
    /// The method name a call answers to.
    pub open spec fn spec_name(&self) -> MethodName {
        match self {
            MethodCall::TorrentStart { .. } => MethodName::TorrentStart,
            MethodCall::TorrentStartNow { .. } => MethodName::TorrentStartNow,
            MethodCall::TorrentStop { .. } => MethodName::TorrentStop,
            MethodCall::TorrentVerify { .. } => MethodName::TorrentVerify,
            MethodCall::TorrentReannounce { .. } => MethodName::TorrentReannounce,
            MethodCall::TorrentSet { .. } => MethodName::TorrentSet,
            MethodCall::TorrentGet { .. } => MethodName::TorrentGet,
            MethodCall::TorrentAdd { .. } => MethodName::TorrentAdd,
            MethodCall::TorrentRemove { .. } => MethodName::TorrentRemove,
            MethodCall::TorrentSetLocation { .. } => MethodName::TorrentSetLocation,
            MethodCall::TorrentRenamePath { .. } => MethodName::TorrentRenamePath,
            MethodCall::SessionSet { .. } => MethodName::SessionSet,
            MethodCall::SessionGet { .. } => MethodName::SessionGet,
            MethodCall::SessionStats => MethodName::SessionStats,
            MethodCall::BlocklistUpdate => MethodName::BlocklistUpdate,
            MethodCall::PortTest => MethodName::PortTest,
            MethodCall::SessionClose => MethodName::SessionClose,
            MethodCall::QueueMoveTop { .. } => MethodName::QueueMoveTop,
            MethodCall::QueueMoveUp { .. } => MethodName::QueueMoveUp,
            MethodCall::QueueMoveDown { .. } => MethodName::QueueMoveDown,
            MethodCall::QueueMoveBottom { .. } => MethodName::QueueMoveBottom,
            MethodCall::FreeSpace { .. } => MethodName::FreeSpace,
        }
    }

    pub fn name(&self) -> (r: MethodName)
        ensures
            r == self.spec_name(),
    {
        match self {
            MethodCall::TorrentStart { .. } => MethodName::TorrentStart,
            MethodCall::TorrentStartNow { .. } => MethodName::TorrentStartNow,
            MethodCall::TorrentStop { .. } => MethodName::TorrentStop,
            MethodCall::TorrentVerify { .. } => MethodName::TorrentVerify,
            MethodCall::TorrentReannounce { .. } => MethodName::TorrentReannounce,
            MethodCall::TorrentSet { .. } => MethodName::TorrentSet,
            MethodCall::TorrentGet { .. } => MethodName::TorrentGet,
            MethodCall::TorrentAdd { .. } => MethodName::TorrentAdd,
            MethodCall::TorrentRemove { .. } => MethodName::TorrentRemove,
            MethodCall::TorrentSetLocation { .. } => MethodName::TorrentSetLocation,
            MethodCall::TorrentRenamePath { .. } => MethodName::TorrentRenamePath,
            MethodCall::SessionSet { .. } => MethodName::SessionSet,
            MethodCall::SessionGet { .. } => MethodName::SessionGet,
            MethodCall::SessionStats => MethodName::SessionStats,
            MethodCall::BlocklistUpdate => MethodName::BlocklistUpdate,
            MethodCall::PortTest => MethodName::PortTest,
            MethodCall::SessionClose => MethodName::SessionClose,
            MethodCall::QueueMoveTop { .. } => MethodName::QueueMoveTop,
            MethodCall::QueueMoveUp { .. } => MethodName::QueueMoveUp,
            MethodCall::QueueMoveDown { .. } => MethodName::QueueMoveDown,
            MethodCall::QueueMoveBottom { .. } => MethodName::QueueMoveBottom,
            MethodCall::FreeSpace { .. } => MethodName::FreeSpace,
        }
    }

    /// Calls whose arguments carry a torrent-id selector that target-set
    /// expansion may replace.
    pub open spec fn spec_has_ids(&self) -> bool {
        match self {
            MethodCall::TorrentStart { .. } => true,
            MethodCall::TorrentStartNow { .. } => true,
            MethodCall::TorrentStop { .. } => true,
            MethodCall::TorrentVerify { .. } => true,
            MethodCall::TorrentReannounce { .. } => true,
            MethodCall::TorrentSet { .. } => true,
            MethodCall::TorrentGet { .. } => true,
            MethodCall::TorrentRemove { .. } => true,
            MethodCall::TorrentSetLocation { .. } => true,
            MethodCall::TorrentRenamePath { .. } => true,
            MethodCall::QueueMoveTop { .. } => true,
            MethodCall::QueueMoveUp { .. } => true,
            MethodCall::QueueMoveDown { .. } => true,
            MethodCall::QueueMoveBottom { .. } => true,
            _ => false,
        }
    }

    /// Calls whose authorization happens on the response instead of by
    /// expanding the request's target set.
    pub open spec fn spec_filters_on_response(&self) -> bool {
        self is TorrentGet
    }

    /// The selector such a call currently carries.
    pub open spec fn spec_ids(&self) -> Option<TorrentIds>
        recommends
            self.spec_has_ids(),
    {
        match self {
            MethodCall::TorrentStart { arguments } => arguments.ids,
            MethodCall::TorrentStartNow { arguments } => arguments.ids,
            MethodCall::TorrentStop { arguments } => arguments.ids,
            MethodCall::TorrentVerify { arguments } => arguments.ids,
            MethodCall::TorrentReannounce { arguments } => arguments.ids,
            MethodCall::TorrentSet { arguments } => arguments.ids,
            MethodCall::TorrentGet { arguments } => arguments.ids,
            MethodCall::TorrentRemove { arguments } => arguments.ids,
            MethodCall::TorrentSetLocation { arguments } => arguments.ids,
            MethodCall::TorrentRenamePath { arguments } => arguments.ids,
            MethodCall::QueueMoveTop { arguments } => arguments.ids,
            MethodCall::QueueMoveUp { arguments } => arguments.ids,
            MethodCall::QueueMoveDown { arguments } => arguments.ids,
            MethodCall::QueueMoveBottom { arguments } => arguments.ids,
            _ => None,
        }
    }

    /// The same call with its selector replaced; every other field of the
    /// arguments is unchanged.
    pub open spec fn spec_with_ids(self, ids: Option<TorrentIds>) -> MethodCall
        recommends
            self.spec_has_ids(),
    {
        match self {
            MethodCall::TorrentStart { arguments } => MethodCall::TorrentStart {
                arguments: TorrentAction { ids, ..arguments },
            },
            MethodCall::TorrentStartNow { arguments } => MethodCall::TorrentStartNow {
                arguments: TorrentAction { ids, ..arguments },
            },
            MethodCall::TorrentStop { arguments } => MethodCall::TorrentStop {
                arguments: TorrentAction { ids, ..arguments },
            },
            MethodCall::TorrentVerify { arguments } => MethodCall::TorrentVerify {
                arguments: TorrentAction { ids, ..arguments },
            },
            MethodCall::TorrentReannounce { arguments } => MethodCall::TorrentReannounce {
                arguments: TorrentAction { ids, ..arguments },
            },
            MethodCall::TorrentSet { arguments } => MethodCall::TorrentSet {
                arguments: TorrentSet { ids, ..arguments },
            },
            MethodCall::TorrentGet { arguments } => MethodCall::TorrentGet {
                arguments: TorrentGet { ids, ..arguments },
            },
            MethodCall::TorrentRemove { arguments } => MethodCall::TorrentRemove {
                arguments: TorrentRemove { ids, ..arguments },
            },
            MethodCall::TorrentSetLocation { arguments } => MethodCall::TorrentSetLocation {
                arguments: TorrentSetLocation { ids, ..arguments },
            },
            MethodCall::TorrentRenamePath { arguments } => MethodCall::TorrentRenamePath {
                arguments: TorrentRenamePath { ids, ..arguments },
            },
            MethodCall::QueueMoveTop { arguments } => MethodCall::QueueMoveTop {
                arguments: QueueMovement { ids, ..arguments },
            },
            MethodCall::QueueMoveUp { arguments } => MethodCall::QueueMoveUp {
                arguments: QueueMovement { ids, ..arguments },
            },
            MethodCall::QueueMoveDown { arguments } => MethodCall::QueueMoveDown {
                arguments: QueueMovement { ids, ..arguments },
            },
            MethodCall::QueueMoveBottom { arguments } => MethodCall::QueueMoveBottom {
                arguments: QueueMovement { ids, ..arguments },
            },
            _ => self,
        }
    }

    pub fn has_ids(&self) -> (r: bool)
        ensures
            r == self.spec_has_ids(),
    {
        match self {
            MethodCall::TorrentStart { .. } => true,
            MethodCall::TorrentStartNow { .. } => true,
            MethodCall::TorrentStop { .. } => true,
            MethodCall::TorrentVerify { .. } => true,
            MethodCall::TorrentReannounce { .. } => true,
            MethodCall::TorrentSet { .. } => true,
            MethodCall::TorrentGet { .. } => true,
            MethodCall::TorrentRemove { .. } => true,
            MethodCall::TorrentSetLocation { .. } => true,
            MethodCall::TorrentRenamePath { .. } => true,
            MethodCall::QueueMoveTop { .. } => true,
            MethodCall::QueueMoveUp { .. } => true,
            MethodCall::QueueMoveDown { .. } => true,
            MethodCall::QueueMoveBottom { .. } => true,
            _ => false,
        }
    }

    pub fn filters_on_response(&self) -> (r: bool)
        ensures
            r == self.spec_filters_on_response(),
    {
        match self {
            MethodCall::TorrentGet { .. } => true,
            _ => false,
        }
    }

    /// A copy of the selector such a call carries.
    pub fn torrent_ids(&self) -> (r: Option<TorrentIds>)
        requires
            self.spec_has_ids(),
        ensures
            spec_opt_ids_like(r, self.spec_ids()),
    {
        match self {
            MethodCall::TorrentStart { arguments } => dup_ids(&arguments.ids),
            MethodCall::TorrentStartNow { arguments } => dup_ids(&arguments.ids),
            MethodCall::TorrentStop { arguments } => dup_ids(&arguments.ids),
            MethodCall::TorrentVerify { arguments } => dup_ids(&arguments.ids),
            MethodCall::TorrentReannounce { arguments } => dup_ids(&arguments.ids),
            MethodCall::TorrentSet { arguments } => dup_ids(&arguments.ids),
            MethodCall::TorrentGet { arguments } => dup_ids(&arguments.ids),
            MethodCall::TorrentRemove { arguments } => dup_ids(&arguments.ids),
            MethodCall::TorrentSetLocation { arguments } => dup_ids(&arguments.ids),
            MethodCall::TorrentRenamePath { arguments } => dup_ids(&arguments.ids),
            MethodCall::QueueMoveTop { arguments } => dup_ids(&arguments.ids),
            MethodCall::QueueMoveUp { arguments } => dup_ids(&arguments.ids),
            MethodCall::QueueMoveDown { arguments } => dup_ids(&arguments.ids),
            MethodCall::QueueMoveBottom { arguments } => dup_ids(&arguments.ids),
            _ => None,
        }
    }

    /// The same call with its selector replaced.
    pub fn with_ids(self, ids: Option<TorrentIds>) -> (r: MethodCall)
        requires
            self.spec_has_ids(),
        ensures
            r == self.spec_with_ids(ids),
    {
        match self {
            MethodCall::TorrentStart { arguments } => MethodCall::TorrentStart {
                arguments: TorrentAction { ids, ..arguments },
            },
            MethodCall::TorrentStartNow { arguments } => MethodCall::TorrentStartNow {
                arguments: TorrentAction { ids, ..arguments },
            },
            MethodCall::TorrentStop { arguments } => MethodCall::TorrentStop {
                arguments: TorrentAction { ids, ..arguments },
            },
            MethodCall::TorrentVerify { arguments } => MethodCall::TorrentVerify {
                arguments: TorrentAction { ids, ..arguments },
            },
            MethodCall::TorrentReannounce { arguments } => MethodCall::TorrentReannounce {
                arguments: TorrentAction { ids, ..arguments },
            },
            MethodCall::TorrentSet { arguments } => MethodCall::TorrentSet {
                arguments: TorrentSet { ids, ..arguments },
            },
            MethodCall::TorrentGet { arguments } => MethodCall::TorrentGet {
                arguments: TorrentGet { ids, ..arguments },
            },
            MethodCall::TorrentRemove { arguments } => MethodCall::TorrentRemove {
                arguments: TorrentRemove { ids, ..arguments },
            },
            MethodCall::TorrentSetLocation { arguments } => MethodCall::TorrentSetLocation {
                arguments: TorrentSetLocation { ids, ..arguments },
            },
            MethodCall::TorrentRenamePath { arguments } => MethodCall::TorrentRenamePath {
                arguments: TorrentRenamePath { ids, ..arguments },
            },
            MethodCall::QueueMoveTop { arguments } => MethodCall::QueueMoveTop {
                arguments: QueueMovement { ids, ..arguments },
            },
            MethodCall::QueueMoveUp { arguments } => MethodCall::QueueMoveUp {
                arguments: QueueMovement { ids, ..arguments },
            },
            MethodCall::QueueMoveDown { arguments } => MethodCall::QueueMoveDown {
                arguments: QueueMovement { ids, ..arguments },
            },
            MethodCall::QueueMoveBottom { arguments } => MethodCall::QueueMoveBottom {
                arguments: QueueMovement { ids, ..arguments },
            },
            _ => self,
        }
    }
}


/// A copy of an optional selector.
pub fn dup_ids(ids: &Option<TorrentIds>) -> (r: Option<TorrentIds>)
    ensures
        spec_opt_ids_like(r, *ids),
{
    match ids {
        None => None,
        Some(x) => Some(x.clone()),
    }
}

/// One parsed RPC request: the call and its correlation tag.
pub struct Request {
    pub call: MethodCall,
    pub tag: Option<i32>,
}

/// The `result` field of a response.
pub enum ResponseStatus {
    Success,
    Failure(String),
}

impl Clone for ResponseStatus {
    fn clone(&self) -> (r: Self)
        ensures
            r == *self,
    {
        match self {
            ResponseStatus::Success => ResponseStatus::Success,
            ResponseStatus::Failure(s) => ResponseStatus::Failure(s.clone()),
        }
    }
}

/// A response as it comes back from the upstream: the arguments are kept
/// raw until the response filter decides how to read them.
pub struct RawResponse {
    pub tag: Option<i32>,
    pub arguments: Option<serde_json::Value>,
    pub result: ResponseStatus,
}

/// The interpreted arguments of a mediated response.
pub enum ResponseKind {
    Torrents(Torrents),
    Session(SessionArguments),
    SessionStats(SessionStats),
    Other { extra: serde_json::Value },
}

/// A mediated response handed back to the client.
pub struct Response {
    pub tag: Option<i32>,
    pub arguments: Option<ResponseKind>,
    pub result: ResponseStatus,
}

} // verus!
