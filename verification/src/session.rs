//! What the bridge remembers between messages.

use crate::text::{decimal, decimal_text, lemma_decimal_injective};
use vstd::hash_map::StringHashMap;
use vstd::hash_set::StringHashSet;
use vstd::prelude::*;

verus! {

/// The id of the first request that the bridge makes itself. The AL server reads ids as
/// 32-bit integers, so they are numbers; they start far above the ids that an editor uses.
pub const BRIDGE_ID_BASE: u64 = 900_000_000;

/// A folder of the editor's workspace.
#[derive(Debug)]
pub struct WorkspaceFolder {
    pub uri: String,
    pub name: String,
}

/// A workspace folder as mathematics.
pub ghost struct FolderModel {
    pub uri: Seq<char>,
    pub name: Seq<char>,
}

impl View for WorkspaceFolder {
    type V = FolderModel;

    open spec fn view(&self) -> FolderModel {
        FolderModel { uri: self.uri@, name: self.name@ }
    }
}

/// Workspace folders as mathematics.
pub open spec fn folder_models(s: Seq<WorkspaceFolder>) -> Seq<FolderModel> {
    Seq::new(s.len(), |i: int| s[i]@)
}

/// A session as mathematics.
#[verifier::ext_equal]
pub ghost struct SessionModel {
    /// The workspace folders.
    pub folders: Seq<FolderModel>,
    /// The ids of the editor's hover requests that are not answered yet.
    pub hover_ids: Set<Seq<char>>,
    /// The ids of the bridge's own requests that are not answered yet, with their methods.
    pub inflight: Map<Seq<char>, Seq<char>>,
    /// How many ids the bridge has used.
    pub issued: nat,
}

/// The text of the `n`-th id that the bridge uses.
pub open spec fn bridge_id(n: nat) -> Seq<char> {
    decimal(BRIDGE_ID_BASE as nat + n)
}

impl SessionModel {
    /// The session at the start.
    pub open spec fn fresh() -> SessionModel {
        SessionModel {
            folders: Seq::empty(),
            hover_ids: Set::empty(),
            inflight: Map::empty(),
            issued: 0,
        }
    }

    /// Whether every request that waits for an answer has an id that the bridge has used.
    pub open spec fn valid(self) -> bool {
        forall|id: Seq<char>| #[trigger]
            self.inflight.contains_key(id) ==> exists|n: nat|
                n < self.issued && id == #[trigger] bridge_id(n)
    }

    /// Whether the bridge has `n` ids left.
    pub open spec fn has_ids(self, n: nat) -> bool {
        BRIDGE_ID_BASE + self.issued + n <= u64::MAX + 1
    }

    /// The id of the next request.
    pub open spec fn next_id(self) -> nat {
        BRIDGE_ID_BASE as nat + self.issued
    }

    /// The session after the bridge has made a request.
    pub open spec fn requested(self, method: Seq<char>) -> SessionModel {
        SessionModel {
            inflight: self.inflight.insert(decimal(self.next_id()), method),
            issued: self.issued + 1,
            ..self
        }
    }
}

/// What the bridge remembers between messages.
pub struct Session {
    workspace_folders: Vec<WorkspaceFolder>,
    client_hover_ids: StringHashSet,
    bridge_inflight: StringHashMap<String>,
    next_bridge_id: u64,
}

impl View for Session {
    type V = SessionModel;

    closed spec fn view(&self) -> SessionModel {
        SessionModel {
            folders: folder_models(self.workspace_folders@),
            hover_ids: self.client_hover_ids@,
            inflight: self.bridge_inflight@.map_values(|s: String| s@),
            issued: self.next_bridge_id as nat,
        }
    }
}

impl Default for Session {
    fn default() -> (r: Session)
        ensures
            r@ == SessionModel::fresh(),
            r@.valid(),
    {
        let r: Session = Session {
            workspace_folders: Vec::new(),
            client_hover_ids: StringHashSet::new(),
            bridge_inflight: StringHashMap::new(),
            next_bridge_id: 0,
        };
        assert(r@ =~= SessionModel::fresh());
        r
    }
}

impl Session {
    /// The workspace folders.
    pub fn workspace_folders(&self) -> (r: &Vec<WorkspaceFolder>)
        ensures
            folder_models(r@) == self@.folders,
    {
        &self.workspace_folders
    }

    /// Replaces the workspace folders.
    pub fn set_workspace_folders(&mut self, folders: Vec<WorkspaceFolder>)
        ensures
            final(self)@ == (SessionModel { folders: folder_models(folders@), ..old(self)@ }),
    {
        self.workspace_folders = folders;
    }

    /// Remembers a hover request of the editor.
    pub fn track_hover(&mut self, id: String)
        ensures
            final(self)@ == (SessionModel {
                hover_ids: old(self)@.hover_ids.insert(id@),
                ..old(self)@
            }),
    {
        self.client_hover_ids.insert(id);
    }

    /// Forgets a hover request of the editor; says whether it was remembered.
    pub fn take_hover(&mut self, id: &str) -> (r: bool)
        ensures
            r == old(self)@.hover_ids.contains(id@),
            final(self)@ == (SessionModel {
                hover_ids: old(self)@.hover_ids.remove(id@),
                ..old(self)@
            }),
    {
        self.client_hover_ids.remove(id)
    }

    /// Forgets a request of the bridge; gives its method where it was waiting.
    pub fn take_inflight(&mut self, id: &str) -> (r: Option<String>)
        ensures
            match r {
                Some(method) => old(self)@.inflight.contains_key(id@) && method@
                    == old(self)@.inflight[id@],
                None => !old(self)@.inflight.contains_key(id@),
            },
            final(self)@ == (SessionModel {
                inflight: old(self)@.inflight.remove(id@),
                ..old(self)@
            }),
    {
        let method: Option<String> = match self.bridge_inflight.get(id) {
            Some(m) => Some(m.clone()),
            None => None,
        };
        self.bridge_inflight.remove(id);
        assert(self@ =~= (SessionModel {
            inflight: old(self)@.inflight.remove(id@),
            ..old(self)@
        }));
        method
    }

    /// Whether the bridge has `n` ids left.
    pub fn has_ids(&self, n: u64) -> (r: bool)
        ensures
            r == self@.has_ids(n as nat),
    {
        if self.next_bridge_id > u64::MAX - BRIDGE_ID_BASE {
            n == 0 && self.next_bridge_id == u64::MAX - BRIDGE_ID_BASE + 1
        } else if n == 0 {
            true
        } else {
            n - 1 <= u64::MAX - BRIDGE_ID_BASE - self.next_bridge_id
        }
    }

    /// Takes a new id for a request of the bridge and remembers the request's method.
    pub fn alloc_id(&mut self, method: &str) -> (r: u64)
        requires
            old(self)@.has_ids(1),
        ensures
            r == old(self)@.next_id(),
            final(self)@ == old(self)@.requested(method@),
            old(self)@.valid() ==> final(self)@.valid(),
    {
        let id: u64 = BRIDGE_ID_BASE + self.next_bridge_id;
        self.next_bridge_id = self.next_bridge_id + 1;
        self.bridge_inflight.insert(decimal_text(id), method.to_owned());
        proof {
            assert(self@ =~= old(self)@.requested(method@));
            if old(self)@.valid() {
                law_requests_keep_sessions_valid(old(self)@, method@);
            }
        }
        id
    }
}

/// A request of the bridge keeps the session valid.
pub proof fn law_requests_keep_sessions_valid(s: SessionModel, method: Seq<char>)
    requires
        s.valid(),
    ensures
        s.requested(method).valid(),
{
    let t = s.requested(method);
    assert forall|id: Seq<char>| #[trigger] t.inflight.contains_key(id) implies exists|n: nat|
        n < t.issued && id == #[trigger] bridge_id(n) by {
        if id == bridge_id(s.issued) {
        } else {
            assert(s.inflight.contains_key(id));
            let n = choose|n: nat| n < s.issued && id == #[trigger] bridge_id(n);
            assert(n < t.issued);
        }
    }
}

/// The bridge never gives a new request the id of one that still waits for its answer.
pub proof fn law_new_ids_are_fresh(s: SessionModel)
    requires
        s.valid(),
    ensures
        !s.inflight.contains_key(decimal(s.next_id())),
{
    let id = decimal(s.next_id());
    if s.inflight.contains_key(id) {
        let n = choose|n: nat| n < s.issued && id == #[trigger] bridge_id(n);
        lemma_decimal_injective(s.next_id(), BRIDGE_ID_BASE as nat + n);
    }
}

/// More than a thousand million ids are 32-bit integers, which the AL server needs them to be.
pub proof fn law_ids_are_32_bit_integers(s: SessionModel)
    requires
        s.issued < 1_247_483_648,
    ensures
        BRIDGE_ID_BASE <= s.next_id() <= i32::MAX,
        s.has_ids(1),
{
}

/// A number below the ids of the bridge is none of them.
pub proof fn law_low_ids_are_not_the_bridges(id: nat)
    requires
        id < BRIDGE_ID_BASE,
    ensures
        forall|n: nat| decimal(id) != #[trigger] bridge_id(n),
{
    assert forall|n: nat| decimal(id) != #[trigger] bridge_id(n) by {
        if decimal(id) == bridge_id(n) {
            lemma_decimal_injective(id, BRIDGE_ID_BASE as nat + n);
        }
    }
}

/// No two requests of the bridge have one id.
pub proof fn law_ids_differ(m: nat, n: nat)
    requires
        m != n,
    ensures
        bridge_id(m) != bridge_id(n),
{
    if bridge_id(m) == bridge_id(n) {
        lemma_decimal_injective(BRIDGE_ID_BASE as nat + m, BRIDGE_ID_BASE as nat + n);
    }
}

/// The ids of the bridge count up from nine hundred million.
pub proof fn law_ids_count_up(s: SessionModel, n: nat, method: Seq<char>)
    ensures
        BRIDGE_ID_BASE == 900_000_000,
        s.next_id() == 900_000_000 + s.issued,
        s.requested(method).next_id() == s.next_id() + 1,
        bridge_id(n) == decimal(900_000_000 + n),
        s.has_ids(n) <==> 900_000_000 + s.issued + n <= 0x1_0000_0000_0000_0000,
        SessionModel::fresh().issued == 0,
{
}

/// A request of the bridge is remembered with its method under its id, and nothing else is
/// different.
pub proof fn law_requests_are_remembered(s: SessionModel, method: Seq<char>, id: Seq<char>)
    ensures
        ({
            let t = s.requested(method);
            let own = decimal(900_000_000 + s.issued);
            &&& t.inflight.contains_key(own) && t.inflight[own] == method
            &&& id != own ==> t.inflight.contains_key(id) == s.inflight.contains_key(id)
            &&& id != own && s.inflight.contains_key(id) ==> t.inflight[id] == s.inflight[id]
            &&& t.folders == s.folders
            &&& t.hover_ids == s.hover_ids
            &&& t.issued == s.issued + 1
        }),
{
}

/// At the start nothing is remembered.
pub proof fn law_sessions_start_empty(id: Seq<char>)
    ensures
        SessionModel::fresh().folders.len() == 0,
        !SessionModel::fresh().hover_ids.contains(id),
        !SessionModel::fresh().inflight.contains_key(id),
{
}

/// A folder is its URI and its name, and a row of folders is each of them in its place.
pub proof fn law_folders_are_uri_and_name(folders: Seq<WorkspaceFolder>, i: int)
    requires
        0 <= i < folders.len(),
    ensures
        folder_models(folders).len() == folders.len(),
        folder_models(folders)[i].uri == folders[i].uri@,
        folder_models(folders)[i].name == folders[i].name@,
{
}

/// A session is valid where only ids that the bridge has used are waited for.
pub proof fn law_valid_sessions_wait_for_used_ids(s: SessionModel, id: Seq<char>)
    requires
        s.valid(),
        s.inflight.contains_key(id),
    ensures
        exists|n: nat| n < s.issued && id == decimal(#[trigger] (900_000_000 + n)),
{
    let n = choose|n: nat| n < s.issued && id == #[trigger] bridge_id(n);
    assert(id == decimal(900_000_000 + n));
}

} // verus!
