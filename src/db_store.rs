use vstd::prelude::*;
use vstd::string::*;

use crate::types::{clone_opt, opt_view, AccessLog, Meta, MetaType, MetaView, ShortUrlMapping};

verus! {

/// One registration of a short code. Rows are never removed: removal clears
/// `active`, and `id` is the row's position in the history.
#[derive(Debug)]
pub struct MappingRow {
    pub id: usize,
    pub short_code: String,
    pub long_url: String,
    pub created_at: u64,
    pub active: bool,
}

/// One audit record of a creation or a lookup.
#[derive(Debug)]
pub struct AccessEvent {
    pub meta_type: MetaType,
    pub short_code: String,
    pub short_code_id: Option<usize>,
    pub created_at: u64,
    pub address: Option<String>,
    pub header: Option<String>,
}

/// An API key issued to a user.
#[derive(Debug)]
pub struct ApiKeyCredential {
    pub uid: i32,
    pub api_key: String,
}

/// A mapping row as text and numbers.
pub struct MappingView {
    pub id: nat,
    pub short_code: Seq<char>,
    pub long_url: Seq<char>,
    pub created_at: u64,
    pub active: bool,
}

/// An audit event as text and numbers.
pub struct EventView {
    pub meta_type: MetaType,
    pub short_code: Seq<char>,
    pub short_code_id: Option<nat>,
    pub created_at: u64,
    pub address: Option<Seq<char>>,
    pub header: Option<Seq<char>>,
}

/// An issued key as text.
pub struct KeyView {
    pub uid: i32,
    pub api_key: Seq<char>,
}

impl View for MappingRow {
    type V = MappingView;

    open spec fn view(&self) -> MappingView {
        MappingView {
            id: self.id as nat,
            short_code: self.short_code@,
            long_url: self.long_url@,
            created_at: self.created_at,
            active: self.active,
        }
    }
}

/// An optional row id as a number.
pub open spec fn id_view(o: Option<usize>) -> Option<nat> {
    match o {
        Some(i) => Some(i as nat),
        None => None,
    }
}

impl View for AccessEvent {
    type V = EventView;

    open spec fn view(&self) -> EventView {
        EventView {
            meta_type: self.meta_type,
            short_code: self.short_code@,
            short_code_id: id_view(self.short_code_id),
            created_at: self.created_at,
            address: opt_view(self.address),
            header: opt_view(self.header),
        }
    }
}

impl View for ApiKeyCredential {
    type V = KeyView;

    open spec fn view(&self) -> KeyView {
        KeyView { uid: self.uid, api_key: self.api_key@ }
    }
}

/// The whole state of a store: the mapping history, the audit trail and the
/// issued keys, each in order of creation.
pub struct StoreView {
    pub mappings: Seq<MappingView>,
    pub events: Seq<EventView>,
    pub api_keys: Seq<KeyView>,
}

/// Number of lookups of `code` among `events`.
pub open spec fn access_count(events: Seq<EventView>, code: Seq<char>) -> nat
    decreases events.len(),
{
    if events.len() == 0 {
        0
    } else {
        let e = events.last();
        let rest = access_count(events.drop_last(), code);
        if e.meta_type == MetaType::Access && e.short_code == code {
            rest + 1
        } else {
            rest
        }
    }
}

/// Latest time of a lookup of `code` among `events`, if there was one.
pub open spec fn last_access(events: Seq<EventView>, code: Seq<char>) -> Option<u64>
    decreases events.len(),
{
    if events.len() == 0 {
        None
    } else {
        let e = events.last();
        let rest = last_access(events.drop_last(), code);
        if e.meta_type == MetaType::Access && e.short_code == code {
            match rest {
                Some(t) => Some(if t >= e.created_at { t } else { e.created_at }),
                None => Some(e.created_at),
            }
        } else {
            rest
        }
    }
}

/// URL of the latest row registered under `code`, active or not.
pub open spec fn latest_url(mappings: Seq<MappingView>, code: Seq<char>) -> Option<Seq<char>>
    decreases mappings.len(),
{
    if mappings.len() == 0 {
        None
    } else if mappings.last().short_code == code {
        Some(mappings.last().long_url)
    } else {
        latest_url(mappings.drop_last(), code)
    }
}

/// The keys issued to `uid`, in order of issue.
pub open spec fn keys_of(keys: Seq<KeyView>, uid: i32) -> Seq<Seq<char>>
    decreases keys.len(),
{
    if keys.len() == 0 {
        seq![]
    } else {
        let rest = keys_of(keys.drop_last(), uid);
        if keys.last().uid == uid {
            rest.push(keys.last().api_key)
        } else {
            rest
        }
    }
}

/// The active registrations, as (code, url) pairs in order of registration.
pub open spec fn active_pairs(mappings: Seq<MappingView>) -> Seq<(Seq<char>, Seq<char>)>
    decreases mappings.len(),
{
    if mappings.len() == 0 {
        seq![]
    } else {
        let rest = active_pairs(mappings.drop_last());
        let m = mappings.last();
        if m.active {
            rest.push((m.short_code, m.long_url))
        } else {
            rest
        }
    }
}

/// An ASCII letter or digit.
pub open spec fn is_alphanumeric(c: char) -> bool {
    ('a' <= c && c <= 'z') || ('A' <= c && c <= 'Z') || ('0' <= c && c <= '9')
}

/// Length of every issued API key.
pub const API_KEY_LEN: usize = 30;

impl StoreView {
    /// The state of a store that holds nothing.
    pub open spec fn empty() -> StoreView {
        StoreView { mappings: seq![], events: seq![], api_keys: seq![] }
    }

    /// Row ids are positions, no two active rows share a code, and no key
    /// is issued twice to one user.
    pub open spec fn wf(self) -> bool {
        &&& forall|i: int, j: int|
            #![trigger self.api_keys[i], self.api_keys[j]]
            0 <= i < self.api_keys.len() && 0 <= j < self.api_keys.len() && self.api_keys[i]
                == self.api_keys[j] ==> i == j
        &&& forall|i: int| 0 <= i < self.mappings.len() ==> #[trigger] self.mappings[i].id == i
        &&& forall|i: int, j: int|
            #![trigger self.mappings[i], self.mappings[j]]
            0 <= i < self.mappings.len() && 0 <= j < self.mappings.len() && self.mappings[i].active
                && self.mappings[j].active && self.mappings[i].short_code
                == self.mappings[j].short_code ==> i == j
    }

    /// Row `i` is an active registration of `code`.
    pub open spec fn is_active_at(self, i: int, code: Seq<char>) -> bool {
        &&& 0 <= i < self.mappings.len()
        &&& self.mappings[i].active
        &&& self.mappings[i].short_code == code
    }

    /// Some active row holds `code`.
    pub open spec fn has_active(self, code: Seq<char>) -> bool {
        exists|i: int| self.is_active_at(i, code)
    }

    /// Position of the active row of `code`; meaningful when `has_active`.
    pub open spec fn active_index(self, code: Seq<char>) -> int {
        choose|i: int| self.is_active_at(i, code)
    }

    /// What a lookup of `code` returns.
    pub open spec fn resolve(self, code: Seq<char>) -> Option<Seq<char>> {
        if self.has_active(code) {
            Some(self.mappings[self.active_index(code)].long_url)
        } else {
            None
        }
    }

    /// The id attached to a lookup event of `code`.
    pub open spec fn resolved_id(self, code: Seq<char>) -> Option<nat> {
        if self.has_active(code) {
            Some(self.active_index(code) as nat)
        } else {
            None
        }
    }

    /// Whether an insert of `code` would be refused.
    pub open spec fn conflicts(self, code: Seq<char>) -> bool {
        self.has_active(code)
    }

    /// The state after an insert of `code` and `url`: unchanged on conflict,
    /// else one new active row and one creation event naming it.
    pub open spec fn inserted(self, code: Seq<char>, url: Seq<char>, meta: MetaView, now: u64) -> StoreView {
        if self.conflicts(code) {
            self
        } else {
            let id = self.mappings.len();
            StoreView {
                mappings: self.mappings.push(
                    MappingView { id, short_code: code, long_url: url, created_at: now, active: true },
                ),
                events: self.events.push(
                    EventView {
                        meta_type: MetaType::Create,
                        short_code: code,
                        short_code_id: Some(id),
                        created_at: now,
                        address: meta.address,
                        header: meta.header,
                    },
                ),
                api_keys: self.api_keys,
            }
        }
    }

    /// The state after a lookup of `code`: one more lookup event, rows unchanged.
    pub open spec fn resolved(self, code: Seq<char>, meta: MetaView, now: u64) -> StoreView {
        StoreView {
            mappings: self.mappings,
            events: self.events.push(
                EventView {
                    meta_type: MetaType::Access,
                    short_code: code,
                    short_code_id: self.resolved_id(code),
                    created_at: now,
                    address: meta.address,
                    header: meta.header,
                },
            ),
            api_keys: self.api_keys,
        }
    }

    /// The state after a removal of `code`: its active row, if any, is deactivated.
    pub open spec fn removed(self, code: Seq<char>) -> StoreView {
        if self.has_active(code) {
            let i = self.active_index(code);
            StoreView {
                mappings: self.mappings.update(
                    i,
                    MappingView { active: false, ..self.mappings[i] },
                ),
                events: self.events,
                api_keys: self.api_keys,
            }
        } else {
            self
        }
    }

    /// Number of rows that a removal of `code` deactivates.
    pub open spec fn removed_count(self, code: Seq<char>) -> usize {
        if self.has_active(code) {
            1
        } else {
            0
        }
    }

    /// The state after `key` is issued to `uid`.
    pub open spec fn with_key(self, uid: i32, key: Seq<char>) -> StoreView {
        StoreView {
            mappings: self.mappings,
            events: self.events,
            api_keys: self.api_keys.push(KeyView { uid, api_key: key }),
        }
    }

    /// Some key was issued to `uid`.
    pub open spec fn has_key(self, uid: i32) -> bool {
        exists|i: int| 0 <= i < self.api_keys.len() && #[trigger] self.api_keys[i].uid == uid
    }

    /// `key` was issued to `uid`.
    pub open spec fn key_matches(self, uid: i32, key: Seq<char>) -> bool {
        exists|i: int|
            0 <= i < self.api_keys.len() && #[trigger] self.api_keys[i].uid == uid
                && self.api_keys[i].api_key == key
    }

    /// What the analytics say of `code`, as (url, access count, last access).
    pub open spec fn summary_of(self, code: Seq<char>) -> (Option<Seq<char>>, nat, Option<u64>) {
        (latest_url(self.mappings, code), access_count(self.events, code), last_access(self.events, code))
    }

    /// Some audit event names `code`.
    pub open spec fn code_audited(self, code: Seq<char>) -> bool {
        exists|i: int| 0 <= i < self.events.len() && #[trigger] self.events[i].short_code == code
    }
}

/// The analytics record `log` is the summary of its code in `v`.
pub open spec fn log_matches(v: StoreView, log: AccessLog) -> bool {
    v.summary_of(log.code@) == (opt_view(log.url), log.access_count as nat, log.last_access)
}

/// The state that persisted rows describe.
pub open spec fn rows_view(
    mappings: Seq<MappingRow>,
    events: Seq<AccessEvent>,
    api_keys: Seq<ApiKeyCredential>,
) -> StoreView {
    StoreView {
        mappings: mappings.map_values(|r: MappingRow| r@),
        events: events.map_values(|e: AccessEvent| e@),
        api_keys: api_keys.map_values(|k: ApiKeyCredential| k@),
    }
}

/// Why an insert was refused.
#[derive(Debug, Clone, Copy, PartialEq, Eq, Structural)]
pub enum StoreError {
    /// An active row already holds the short code.
    Conflict,
    /// The key was already issued to the user.
    KeyExists,
    /// The change could not be written to storage.
    PersistenceFailure,
}

/// The mapping repository, its audit trail and the API keys, owned together
/// so that each operation and its audit record happen as one step.
pub struct Store {
    mappings: Vec<MappingRow>,
    events: Vec<AccessEvent>,
    api_keys: Vec<ApiKeyCredential>,
}

impl View for Store {
    type V = StoreView;

    closed spec fn view(&self) -> StoreView {
        StoreView {
            mappings: self.mappings@.map_values(|r: MappingRow| r@),
            events: self.events@.map_values(|e: AccessEvent| e@),
            api_keys: self.api_keys@.map_values(|k: ApiKeyCredential| k@),
        }
    }
}

/// Relies on rand's `Alphanumeric` distribution, sampled through
/// `DistString::sample_string` from `thread_rng()`: a string of `len`
/// characters, each one of `A`-`Z`, `a`-`z`, `0`-`9`.
#[verifier::external_body]
fn random_alphanumeric(len: usize) -> (r: String)
    ensures
        r@.len() == len,
        forall|i: int| 0 <= i < r@.len() ==> is_alphanumeric(#[trigger] r@[i]),
{
    rand::distributions::DistString::sample_string(
        &rand::distributions::Alphanumeric,
        &mut rand::thread_rng(),
        len,
    )
}

/// Whether some record of `logs` is about `code`.
fn logs_contain(logs: &Vec<AccessLog>, code: &String) -> (r: bool)
    ensures
        r == exists|k: int| 0 <= k < logs.len() && (#[trigger] logs@[k]).code@ == code@,
{
    let mut k: usize = 0;
    while k < logs.len()
        invariant
            k <= logs.len(),
            forall|l: int| 0 <= l < k ==> (#[trigger] logs@[l]).code@ != code@,
        decreases logs.len() - k,
    {
        if logs[k].code == *code {
            return true;
        }
        k += 1;
    }
    false
}

impl Store {
    /// An empty store.
    pub fn new() -> (r: Store)
        ensures
            r@ == StoreView::empty(),
            r@.wf(),
    {
        let r = Store { mappings: Vec::new(), events: Vec::new(), api_keys: Vec::new() };
        proof {
            assert(r@.mappings =~= seq![]);
            assert(r@.events =~= seq![]);
            assert(r@.api_keys =~= seq![]);
        }
        r
    }

    /// A store over rows read back from storage. Refused, with `None`, where
    /// a row's id is not its position, two active rows share a code, or a
    /// key is listed twice for one user.
    pub fn from_rows(mappings: Vec<MappingRow>, events: Vec<AccessEvent>, api_keys: Vec<ApiKeyCredential>) -> (r:
        Option<Store>)
        ensures
            r is Some <==> rows_view(mappings@, events@, api_keys@).wf(),
            r matches Some(s) ==> s@ == rows_view(mappings@, events@, api_keys@),
    {
        let ghost v = rows_view(mappings@, events@, api_keys@);
        let mut i: usize = 0;
        while i < mappings.len()
            invariant
                i <= mappings.len(),
                v == rows_view(mappings@, events@, api_keys@),
                forall|k: int| 0 <= k < i ==> #[trigger] v.mappings[k].id == k,
                forall|k: int, l: int|
                    #![trigger v.mappings[k], v.mappings[l]]
                    0 <= k < i && 0 <= l < i && v.mappings[k].active && v.mappings[l].active
                        && v.mappings[k].short_code == v.mappings[l].short_code ==> k == l,
            decreases mappings.len() - i,
        {
            let row = &mappings[i];
            assert(v.mappings[i as int] == row@);
            if row.id != i {
                assert(v.mappings[i as int].id != i as int);
                return None;
            }
            if row.active {
                let mut j: usize = 0;
                while j < i
                    invariant
                        j <= i < mappings.len(),
                        v == rows_view(mappings@, events@, api_keys@),
                        row@ == v.mappings[i as int],
                        row.active,
                        forall|l: int|
                            0 <= l < j ==> !(#[trigger] v.mappings[l].active && v.mappings[l].short_code
                                == row.short_code@),
                    decreases i - j,
                {
                    let other = &mappings[j];
                    assert(v.mappings[j as int] == other@);
                    if other.active && other.short_code == row.short_code {
                        assert(v.mappings[j as int].active);
                        return None;
                    }
                    j += 1;
                }
            }
            i += 1;
        }
        let mut i: usize = 0;
        while i < api_keys.len()
            invariant
                i <= api_keys.len(),
                v == rows_view(mappings@, events@, api_keys@),
                forall|k: int, l: int|
                    #![trigger v.api_keys[k], v.api_keys[l]]
                    0 <= k < i && 0 <= l < i && v.api_keys[k] == v.api_keys[l] ==> k == l,
            decreases api_keys.len() - i,
        {
            let key = &api_keys[i];
            assert(v.api_keys[i as int] == key@);
            let mut j: usize = 0;
            while j < i
                invariant
                    j <= i < api_keys.len(),
                    v == rows_view(mappings@, events@, api_keys@),
                    key@ == v.api_keys[i as int],
                    forall|l: int| 0 <= l < j ==> #[trigger] v.api_keys[l] != key@,
                decreases i - j,
            {
                let other = &api_keys[j];
                assert(v.api_keys[j as int] == other@);
                if other.uid == key.uid && other.api_key == key.api_key {
                    assert(v.api_keys[j as int] == v.api_keys[i as int]);
                    return None;
                }
                j += 1;
            }
            i += 1;
        }
        let r = Store { mappings, events, api_keys };
        assert(r@ == v);
        Some(r)
    }

    /// Position of the active row of `code`, if there is one.
    fn find_active(&self, code: &String) -> (r: Option<usize>)
        ensures
            match r {
                Some(i) => self@.is_active_at(i as int, code@),
                None => !self@.has_active(code@),
            },
    {
        let mut i: usize = 0;
        while i < self.mappings.len()
            invariant
                i <= self.mappings.len(),
                forall|j: int| 0 <= j < i ==> !self@.is_active_at(j, code@),
            decreases self.mappings.len() - i,
        {
            let row = &self.mappings[i];
            if row.active && row.short_code == *code {
                return Some(i);
            }
            i += 1;
        }
        None
    }

    /// Registers `long_url` under `short_code` at time `now`, with a creation
    /// event in the audit trail. Refused with `Conflict`, changing nothing,
    /// while an active row holds the code; a code whose rows were all
    /// removed may be registered again.
    pub fn insert(&mut self, short_code: &str, long_url: &str, meta: &Meta, now: u64) -> (r: Result<(), StoreError>)
        requires
            old(self)@.wf(),
        ensures
            final(self)@.wf(),
            final(self)@ == old(self)@.inserted(short_code@, long_url@, meta@, now),
            r is Err <==> old(self)@.conflicts(short_code@),
            r is Err ==> r == Err::<(), StoreError>(StoreError::Conflict),
    {
        let code = String::from_str(short_code);
        match self.find_active(&code) {
            Some(_) => Err(StoreError::Conflict),
            None => {
                let id = self.mappings.len();
                let row = MappingRow {
                    id,
                    short_code: code.clone(),
                    long_url: String::from_str(long_url),
                    created_at: now,
                    active: true,
                };
                self.mappings.push(row);
                proof {
                    assert(self@.mappings =~= old(self)@.mappings.push(row@));
                }
                self.record(MetaType::Create, code, Some(id), meta, now);
                proof {
                    let v = final(self)@;
                    assert(v.mappings =~= old(self)@.inserted(short_code@, long_url@, meta@, now).mappings);
                    crate::laws::lemma_inserted_wf(old(self)@, short_code@, long_url@, meta@, now);
                }
                Ok(())
            },
        }
    }

    /// Looks up the active URL of `short_code`, and records the lookup, hit or
    /// miss, as one access event at time `now`. Rows are not changed.
    pub fn get(&mut self, short_code: &str, meta: &Meta, now: u64) -> (r: Option<String>)
        requires
            old(self)@.wf(),
        ensures
            final(self)@.wf(),
            final(self)@ == old(self)@.resolved(short_code@, meta@, now),
            opt_view(r) == old(self)@.resolve(short_code@),
    {
        let code = String::from_str(short_code);
        let found = self.find_active(&code);
        let (r, id) = match found {
            Some(i) => (Some(self.mappings[i].long_url.clone()), Some(i)),
            None => (None, None),
        };
        proof {
            if let Some(i) = found {
                let v = old(self)@;
                assert(v.has_active(short_code@));
                let k = v.active_index(short_code@);
                assert(v.is_active_at(k, short_code@));
                assert(k == i as int);
            }
        }
        self.record(MetaType::Access, code, id, meta, now);
        r
    }

    /// Deactivates the active row of `short_code`, and returns the number of
    /// rows deactivated: 1, or 0 where there was nothing to remove.
    pub fn remove(&mut self, short_code: &str) -> (r: usize)
        requires
            old(self)@.wf(),
        ensures
            final(self)@.wf(),
            final(self)@ == old(self)@.removed(short_code@),
            r == old(self)@.removed_count(short_code@),
    {
        let code = String::from_str(short_code);
        match self.find_active(&code) {
            Some(i) => {
                let ghost v = old(self)@;
                proof {
                    let k = v.active_index(short_code@);
                    assert(v.is_active_at(k, short_code@));
                    assert(k == i as int);
                }
                self.mappings[i].active = false;
                proof {
                    assert(self@.mappings =~= v.removed(short_code@).mappings);
                }
                1
            },
            None => 0,
        }
    }

    /// Stores `key` as a key of `uid`. Refused with `KeyExists`, changing
    /// nothing, where that key was already issued to `uid`.
    pub fn issue_api_key(&mut self, uid: i32, key: String) -> (r: Result<(), StoreError>)
        requires
            old(self)@.wf(),
        ensures
            final(self)@.wf(),
            r is Err <==> old(self)@.key_matches(uid, key@),
            r is Err ==> r == Err::<(), StoreError>(StoreError::KeyExists) && final(self)@ == old(self)@,
            r is Ok ==> final(self)@ == old(self)@.with_key(uid, key@),
    {
        if self.check_api_key(uid, key.as_str()) {
            return Err(StoreError::KeyExists);
        }
        let cred = ApiKeyCredential { uid, api_key: key };
        self.api_keys.push(cred);
        proof {
            assert(self@.mappings == old(self)@.mappings);
            assert(self@.api_keys =~= old(self)@.api_keys.push(cred@));
            crate::laws::lemma_with_key_wf(old(self)@, uid, cred.api_key@);
        }
        Ok(())
    }

    /// Draws a random key of `API_KEY_LEN` letters and digits and issues it
    /// to `uid`. Returns it where it is new for `uid`; a draw that repeats a
    /// key of `uid` gives `None` and changes nothing. Earlier keys of `uid`
    /// stay valid.
    pub fn create_api_key(&mut self, uid: i32) -> (r: Option<String>)
        requires
            old(self)@.wf(),
        ensures
            final(self)@.wf(),
            r matches Some(k) ==> !old(self)@.key_matches(uid, k@) && final(self)@ == old(self)@.with_key(
                uid,
                k@,
            ) && k@.len() == API_KEY_LEN && forall|i: int|
                0 <= i < k@.len() ==> is_alphanumeric(#[trigger] k@[i]),
            r is None ==> final(self)@ == old(self)@,
            !old(self)@.has_key(uid) ==> r is Some,
    {
        let key = random_alphanumeric(API_KEY_LEN);
        let drawn = key.clone();
        match self.issue_api_key(uid, key) {
            Ok(()) => Some(drawn),
            Err(_) => None,
        }
    }

    /// Makes sure that `uid` has a key: where it has none, issues one and
    /// returns it, so that it can be handed to the operator; else changes
    /// nothing and returns `None`.
    pub fn bootstrap_api_key(&mut self, uid: i32) -> (r: Option<String>)
        requires
            old(self)@.wf(),
        ensures
            final(self)@.wf(),
            old(self)@.has_key(uid) ==> r is None && final(self)@ == old(self)@,
            !old(self)@.has_key(uid) ==> (r matches Some(k) && final(self)@ == old(self)@.with_key(uid, k@)
                && k@.len() == API_KEY_LEN),
            final(self)@.has_key(uid),
    {
        if self.has_api_key(uid) {
            None
        } else {
            let k = self.create_api_key(uid);
            proof {
                crate::laws::law_api_keys_accumulate(old(self)@, uid, k.unwrap()@, uid, k.unwrap()@);
            }
            k
        }
    }

    /// All keys issued to `uid`, in order of issue, each once.
    pub fn list_api_key(&self, uid: i32) -> (r: Vec<String>)
        requires
            self@.wf(),
        ensures
            r@.map_values(|s: String| s@) == keys_of(self@.api_keys, uid),
            r@.map_values(|s: String| s@).no_duplicates(),
    {
        proof {
            crate::laws::lemma_keys_of_unique(self@.api_keys, uid);
        }
        let mut out: Vec<String> = Vec::new();
        let mut i: usize = 0;
        while i < self.api_keys.len()
            invariant
                i <= self.api_keys.len(),
                out@.map_values(|s: String| s@) == keys_of(self@.api_keys.take(i as int), uid),
            decreases self.api_keys.len() - i,
        {
            proof {
                assert(self@.api_keys.take(i + 1).drop_last() =~= self@.api_keys.take(i as int));
            }
            if self.api_keys[i].uid == uid {
                let k = self.api_keys[i].api_key.clone();
                out.push(k);
                proof {
                    assert(out@.map_values(|s: String| s@) =~= keys_of(self@.api_keys.take(i as int), uid).push(k@));
                }
            }
            i += 1;
        }
        proof {
            assert(self@.api_keys.take(i as int) =~= self@.api_keys);
        }
        out
    }

    /// Whether `api_key` was issued to `uid`.
    pub fn check_api_key(&self, uid: i32, api_key: &str) -> (r: bool)
        ensures
            r == self@.key_matches(uid, api_key@),
    {
        let key = String::from_str(api_key);
        let mut i: usize = 0;
        while i < self.api_keys.len()
            invariant
                i <= self.api_keys.len(),
                key@ == api_key@,
                forall|j: int|
                    0 <= j < i ==> !(#[trigger] self@.api_keys[j].uid == uid && self@.api_keys[j].api_key
                        == api_key@),
            decreases self.api_keys.len() - i,
        {
            let c = &self.api_keys[i];
            assert(self@.api_keys[i as int] == c@);
            let same_key = c.api_key == key;
            if c.uid == uid && same_key {
                assert(self@.api_keys[i as int].uid == uid);
                return true;
            }
            i += 1;
        }
        false
    }

    /// Whether any key was issued to `uid`.
    pub fn has_api_key(&self, uid: i32) -> (r: bool)
        ensures
            r == self@.has_key(uid),
    {
        let mut i: usize = 0;
        while i < self.api_keys.len()
            invariant
                i <= self.api_keys.len(),
                forall|j: int| 0 <= j < i ==> self@.api_keys[j].uid != uid,
            decreases self.api_keys.len() - i,
        {
            if self.api_keys[i].uid == uid {
                assert(self@.api_keys[i as int].uid == uid);
                return true;
            }
            i += 1;
        }
        false
    }

    /// One analytics record per code that appears in the audit trail: its
    /// number of lookups, the time of its latest lookup, and the URL of its
    /// latest registration. Counts are kept by code text, so they run on
    /// across a removal and a new registration of the same code.
    pub fn get_summarised_access_logs(&self) -> (r: Vec<AccessLog>)
        ensures
            forall|k: int| 0 <= k < r.len() ==> log_matches(self@, #[trigger] r@[k]),
            forall|k: int, l: int| 0 <= k < l < r.len() ==> r@[k].code@ != r@[l].code@,
            forall|k: int| 0 <= k < r.len() ==> self@.code_audited(#[trigger] r@[k].code@),
            forall|i: int|
                #![trigger self@.events[i]]
                0 <= i < self@.events.len() ==> exists|k: int|
                    0 <= k < r.len() && (#[trigger] r@[k]).code@ == self@.events[i].short_code,
    {
        let mut out: Vec<AccessLog> = Vec::new();
        let mut i: usize = 0;
        while i < self.events.len()
            invariant
                i <= self.events.len(),
                forall|k: int| 0 <= k < out.len() ==> log_matches(self@, #[trigger] out@[k]),
                forall|k: int, l: int| 0 <= k < l < out.len() ==> out@[k].code@ != out@[l].code@,
                forall|k: int| 0 <= k < out.len() ==> self@.code_audited(#[trigger] out@[k].code@),
                forall|j: int|
                    #![trigger self@.events[j]]
                    0 <= j < i ==> exists|k: int|
                        0 <= k < out.len() && (#[trigger] out@[k]).code@ == self@.events[j].short_code,
            decreases self.events.len() - i,
        {
            let code = &self.events[i].short_code;
            assert(self@.events[i as int].short_code == code@);
            let seen = logs_contain(&out, code);
            if !seen {
                let log = self.summarise_code(code);
                let ghost n = out.len();
                let ghost before = out@;
                out.push(log);
                proof {
                    assert(out@[n as int] == log);
                    assert forall|j: int|
                        #![trigger self@.events[j]]
                        0 <= j < i + 1 implies exists|k: int|
                        0 <= k < out.len() && (#[trigger] out@[k]).code@
                            == self@.events[j].short_code by {
                        if j < i {
                            let k = choose|k: int|
                                0 <= k < before.len() && (#[trigger] before[k]).code@
                                    == self@.events[j].short_code;
                            assert(out@[k] == before[k]);
                        } else {
                            assert(out@[n as int].code@ == self@.events[j].short_code);
                        }
                    }
                }
            }
            i += 1;
        }
        out
    }

    /// The analytics record of `code`.
    fn summarise_code(&self, code: &String) -> (r: AccessLog)
        requires
            self@.code_audited(code@),
        ensures
            r.code@ == code@,
            log_matches(self@, r),
    {
        let ghost events = self@.events;
        let mut count: usize = 0;
        let mut last: Option<u64> = None;
        let mut j: usize = 0;
        while j < self.events.len()
            invariant
                j <= self.events.len(),
                events == self@.events,
                count <= j,
                count == access_count(events.take(j as int), code@),
                last == last_access(events.take(j as int), code@),
            decreases self.events.len() - j,
        {
            proof {
                assert(events.take(j + 1).drop_last() =~= events.take(j as int));
            }
            let e = &self.events[j];
            assert(events[j as int] == e@);
            let is_access = match e.meta_type {
                MetaType::Access => true,
                MetaType::Create => false,
            };
            if is_access && e.short_code == *code {
                count += 1;
                last = match last {
                    Some(t) => Some(if t >= e.created_at { t } else { e.created_at }),
                    None => Some(e.created_at),
                };
            }
            j += 1;
        }
        proof {
            assert(events.take(j as int) =~= events);
        }
        let ghost mappings = self@.mappings;
        let mut url: Option<String> = None;
        let mut m: usize = 0;
        while m < self.mappings.len()
            invariant
                m <= self.mappings.len(),
                mappings == self@.mappings,
                opt_view(url) == latest_url(mappings.take(m as int), code@),
            decreases self.mappings.len() - m,
        {
            proof {
                assert(mappings.take(m + 1).drop_last() =~= mappings.take(m as int));
            }
            let row = &self.mappings[m];
            assert(mappings[m as int] == row@);
            if row.short_code == *code {
                url = Some(row.long_url.clone());
            }
            m += 1;
        }
        proof {
            assert(mappings.take(m as int) =~= mappings);
        }
        AccessLog { code: code.clone(), url, last_access: last, access_count: count as u64 }
    }

    /// The active registrations, in order of registration.
    pub fn get_all(&self) -> (r: Vec<ShortUrlMapping>)
        ensures
            r@.map_values(|m: ShortUrlMapping| (m.short_code@, m.url@)) == active_pairs(self@.mappings),
    {
        let ghost mappings = self@.mappings;
        let mut out: Vec<ShortUrlMapping> = Vec::new();
        let mut i: usize = 0;
        while i < self.mappings.len()
            invariant
                i <= self.mappings.len(),
                mappings == self@.mappings,
                out@.map_values(|m: ShortUrlMapping| (m.short_code@, m.url@)) == active_pairs(
                    mappings.take(i as int),
                ),
            decreases self.mappings.len() - i,
        {
            proof {
                assert(mappings.take(i + 1).drop_last() =~= mappings.take(i as int));
            }
            let row = &self.mappings[i];
            assert(mappings[i as int] == row@);
            if row.active {
                let m = ShortUrlMapping { short_code: row.short_code.clone(), url: row.long_url.clone() };
                out.push(m);
                proof {
                    assert(out@.map_values(|m: ShortUrlMapping| (m.short_code@, m.url@)) =~= active_pairs(
                        mappings.take(i as int),
                    ).push((m.short_code@, m.url@)));
                }
            }
            i += 1;
        }
        proof {
            assert(mappings.take(i as int) =~= mappings);
        }
        out
    }

    /// Number of rows in the mapping history.
    pub fn mapping_count(&self) -> (r: usize)
        ensures
            r == self@.mappings.len(),
    {
        self.mappings.len()
    }

    /// The row at position `i` of the mapping history.
    pub fn mapping(&self, i: usize) -> (r: &MappingRow)
        requires
            i < self@.mappings.len(),
        ensures
            r@ == self@.mappings[i as int],
    {
        &self.mappings[i]
    }

    /// Number of events in the audit trail.
    pub fn event_count(&self) -> (r: usize)
        ensures
            r == self@.events.len(),
    {
        self.events.len()
    }

    /// The event at position `i` of the audit trail.
    pub fn event(&self, i: usize) -> (r: &AccessEvent)
        requires
            i < self@.events.len(),
        ensures
            r@ == self@.events[i as int],
    {
        &self.events[i]
    }

    /// Number of issued keys.
    pub fn api_key_count(&self) -> (r: usize)
        ensures
            r == self@.api_keys.len(),
    {
        self.api_keys.len()
    }

    /// The key at position `i`, in order of issue.
    pub fn api_key(&self, i: usize) -> (r: &ApiKeyCredential)
        requires
            i < self@.api_keys.len(),
        ensures
            r@ == self@.api_keys[i as int],
    {
        &self.api_keys[i]
    }

    /// Appends an audit event.
    fn record(&mut self, meta_type: MetaType, short_code: String, short_code_id: Option<usize>, meta: &Meta, now: u64)
        ensures
            final(self)@ == (StoreView {
                events: old(self)@.events.push(
                    EventView {
                        meta_type,
                        short_code: short_code@,
                        short_code_id: id_view(short_code_id),
                        created_at: now,
                        address: meta@.address,
                        header: meta@.header,
                    },
                ),
                ..old(self)@
            }),
    {
        let e = AccessEvent {
            meta_type,
            short_code,
            short_code_id,
            created_at: now,
            address: clone_opt(&meta.address),
            header: clone_opt(&meta.header),
        };
        self.events.push(e);
        proof {
            assert(final(self)@.events =~= old(self)@.events.push(e@));
        }
    }
}

} // verus!
