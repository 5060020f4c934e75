//! Database keys, and the decision when to extract them anew.

use crate::text::{
    contains, ends_with, has_part, has_prefix, has_suffix, starts_with, texts,
};
use crate::text_map::{TextMap, entry_at, lists};
use vstd::prelude::*;

verus! {

// ---------------------------------------------------------------------------
// Keys by database
// ---------------------------------------------------------------------------

/// The keys of the databases of one account, each under the name of its database.
#[derive(Debug)]
pub struct KeyRing {
    pub keys: TextMap<String>,
}

impl View for KeyRing {
    type V = Map<Seq<char>, Seq<char>>;

    open spec fn view(&self) -> Map<Seq<char>, Seq<char>> {
        self.keys@.map_values(|key: String| key@)
    }
}

impl KeyRing {
    /// No keys.
    pub fn new() -> (r: KeyRing)
        ensures
            r@ == Map::<Seq<char>, Seq<char>>::empty(),
    {
        let r = KeyRing { keys: TextMap::new() };
        assert(r@ =~= Map::<Seq<char>, Seq<char>>::empty());
        r
    }

    /// Whether there is a key for the database.
    pub fn contains_key(&self, name: &str) -> (r: bool)
        ensures
            r == self@.dom().contains(name@),
    {
        self.keys.get(name).is_some()
    }

    /// Whether there are no keys.
    pub fn is_empty(&self) -> (r: bool)
        ensures
            r == (self@ == Map::<Seq<char>, Seq<char>>::empty()),
    {
        let entries = self.keys.entries();
        proof {
            if entries@.len() == 0 {
                assert forall|name: Seq<char>| !self.keys@.dom().contains(name) by {
                    if self.keys@.dom().contains(name) {
                        let i = choose|i: int| entry_at(entries@, name, i);
                        assert(entry_at(entries@, name, i));
                    }
                }
                assert(self@ =~= Map::<Seq<char>, Seq<char>>::empty());
            } else {
                assert(self.keys@.contains_pair(entries@[0].0@, entries@[0].1));
                assert(self@.dom().contains(entries@[0].0@));
            }
        }
        entries.len() == 0
    }

    /// Puts in a key. A key that the database had before is replaced.
    pub fn insert(&mut self, name: String, key: String)
        ensures
            final(self)@ == old(self)@.insert(name@, key@),
    {
        self.keys.insert(name, key);
        assert(self@ =~= old(self)@.insert(name@, key@));
    }

    /// Whether there is a key of a database that holds messages.
    pub fn has_message_db(&self) -> (r: bool)
        ensures
            r == has_message_key(self@),
    {
        let entries = self.keys.entries();
        let mut i: usize = 0;
        while i < entries.len()
            invariant
                i <= entries.len(),
                lists(entries@, self.keys@),
                forall|j: int| 0 <= j < i ==> !is_message_db((#[trigger] entries@[j]).0@),
            decreases entries.len() - i,
        {
            if is_message_db_name(entries[i].0.as_str()) {
                assert(self.keys@.contains_pair(entries@[i as int].0@, entries@[i as int].1));
                assert(self@.dom().contains(entries@[i as int].0@));
                return true;
            }
            i += 1;
        }
        assert forall|name: Seq<char>| #[trigger]
            self@.dom().contains(name) implies !is_message_db(name) by {
            assert(self.keys@.dom().contains(name));
            let j = choose|j: int| entry_at(entries@, name, j);
            assert(entries@[j].0@ == name);
        }
        false
    }
}

// ---------------------------------------------------------------------------
// Which databases need a key
// ---------------------------------------------------------------------------

/// Whether a database holds messages: its shards, but neither their search index nor their
/// resources.
pub open spec fn is_message_db(name: Seq<char>) -> bool {
    &&& has_prefix(name, "message_"@)
    &&& has_suffix(name, ".db"@)
    &&& !has_part(name, "fts"@)
    &&& !has_part(name, "resource"@)
}

/// Whether a database holds voice recordings.
pub open spec fn is_media_db(name: Seq<char>) -> bool {
    has_prefix(name, "media_"@) && has_suffix(name, ".db"@)
}

/// Whether one of the databases on disk holds messages and has no key.
pub open spec fn lacks_message_key(
    on_disk: Seq<Seq<char>>,
    keys: Map<Seq<char>, Seq<char>>,
) -> bool {
    exists|i: int|
        0 <= i < on_disk.len() && is_message_db(#[trigger] on_disk[i]) && !keys.dom().contains(
            on_disk[i],
        )
}

/// Whether one of the databases on disk holds voice recordings and has no key.
pub open spec fn lacks_media_key(
    on_disk: Seq<Seq<char>>,
    keys: Map<Seq<char>, Seq<char>>,
) -> bool {
    exists|i: int|
        0 <= i < on_disk.len() && is_media_db(#[trigger] on_disk[i]) && !keys.dom().contains(
            on_disk[i],
        )
}

/// Whether there is a key of a database that holds messages.
pub open spec fn has_message_key(keys: Map<Seq<char>, Seq<char>>) -> bool {
    exists|name: Seq<char>| #[trigger] keys.dom().contains(name) && is_message_db(name)
}

/// Whether a database holds messages.
pub fn is_message_db_name(name: &str) -> (r: bool)
    ensures
        r == is_message_db(name@),
{
    starts_with(name, "message_") && ends_with(name, ".db") && !contains(name, "fts") && !contains(
        name,
        "resource",
    )
}

/// Whether a database holds voice recordings.
pub fn is_media_db_name(name: &str) -> (r: bool)
    ensures
        r == is_media_db(name@),
{
    starts_with(name, "media_") && ends_with(name, ".db")
}

/// Whether a message database on disk has no key.
pub fn message_key_missing(on_disk: &[String], keys: &KeyRing) -> (r: bool)
    ensures
        r == lacks_message_key(texts(on_disk@), keys@),
{
    let mut i: usize = 0;
    while i < on_disk.len()
        invariant
            i <= on_disk.len(),
            forall|j: int|
                0 <= j < i ==> !(is_message_db(#[trigger] texts(on_disk@)[j])
                    && !keys@.dom().contains(texts(on_disk@)[j])),
        decreases on_disk.len() - i,
    {
        let name = on_disk[i].as_str();
        assert(texts(on_disk@)[i as int] == name@);
        if is_message_db_name(name) && !keys.contains_key(name) {
            return true;
        }
        i += 1;
    }
    false
}

/// Whether a voice database on disk has no key.
pub fn media_key_missing(on_disk: &[String], keys: &KeyRing) -> (r: bool)
    ensures
        r == lacks_media_key(texts(on_disk@), keys@),
{
    let mut i: usize = 0;
    while i < on_disk.len()
        invariant
            i <= on_disk.len(),
            forall|j: int|
                0 <= j < i ==> !(is_media_db(#[trigger] texts(on_disk@)[j])
                    && !keys@.dom().contains(texts(on_disk@)[j])),
        decreases on_disk.len() - i,
    {
        let name = on_disk[i].as_str();
        assert(texts(on_disk@)[i as int] == name@);
        if is_media_db_name(name) && !keys.contains_key(name) {
            return true;
        }
        i += 1;
    }
    false
}

// ---------------------------------------------------------------------------
// Extraction of voice keys
// ---------------------------------------------------------------------------

/// The type of a voice message.
pub const VOICE: i32 = 34;

/// Seconds to wait for the right to extract.
pub const LOCK_TIMEOUT_SECS: u64 = 5;

/// Seconds to wait for an extraction.
pub const EXTRACTION_TIMEOUT_SECS: u64 = 8;

/// What a request for the media of a message waits for before it has its keys. All but `Lock`
/// and `Done` hold the right to extract, which one request has at a time.
#[derive(Debug)]
pub enum KeyStage {
    /// Get the right to extract, within [`LOCK_TIMEOUT_SECS`].
    Lock,
    /// Read the stored keys again.
    Reload,
    /// Extract the keys, within [`EXTRACTION_TIMEOUT_SECS`].
    Extract,
    /// Store what was extracted, then read the stored keys.
    SaveAndReload(KeyRing),
    /// Nothing: give up the right, and go on with `Ok`, which says whether keys were extracted,
    /// or report that the media is not ready.
    Done(Result<bool, ()>),
}

/// What the outside world answers.
#[derive(Debug)]
pub enum KeyEvent {
    Locked,
    LockTimedOut,
    Stored(KeyRing),
    Extracted(KeyRing),
    ExtractionTimedOut,
}

/// A request for the keys that the media of a message needs.
#[derive(Debug)]
pub struct KeyRequest {
    pub on_disk: Vec<String>,
    pub keys: KeyRing,
    pub stage: KeyStage,
}

/// What a [`KeyStage`] is.
pub enum Stage {
    Lock,
    Reload,
    Extract,
    SaveAndReload(Map<Seq<char>, Seq<char>>),
    Done(Result<bool, ()>),
}

/// What a [`KeyEvent`] says.
pub enum Answer {
    Locked,
    LockTimedOut,
    Stored(Map<Seq<char>, Seq<char>>),
    Extracted(Map<Seq<char>, Seq<char>>),
    ExtractionTimedOut,
}

/// What a [`KeyRequest`] holds.
pub struct Request {
    pub on_disk: Seq<Seq<char>>,
    pub keys: Map<Seq<char>, Seq<char>>,
    pub stage: Stage,
}

impl View for KeyStage {
    type V = Stage;

    open spec fn view(&self) -> Stage {
        match *self {
            KeyStage::Lock => Stage::Lock,
            KeyStage::Reload => Stage::Reload,
            KeyStage::Extract => Stage::Extract,
            KeyStage::SaveAndReload(extracted) => Stage::SaveAndReload(extracted@),
            KeyStage::Done(r) => Stage::Done(r),
        }
    }
}

impl View for KeyEvent {
    type V = Answer;

    open spec fn view(&self) -> Answer {
        match *self {
            KeyEvent::Locked => Answer::Locked,
            KeyEvent::LockTimedOut => Answer::LockTimedOut,
            KeyEvent::Stored(keys) => Answer::Stored(keys@),
            KeyEvent::Extracted(keys) => Answer::Extracted(keys@),
            KeyEvent::ExtractionTimedOut => Answer::ExtractionTimedOut,
        }
    }
}

impl View for KeyRequest {
    type V = Request;

    open spec fn view(&self) -> Request {
        Request { on_disk: texts(self.on_disk@), keys: self.keys@, stage: self.stage@ }
    }
}

/// A request at its beginning. Only a voice message with a voice database without a key goes on
/// to extract.
pub open spec fn asked(
    base_type: i32,
    on_disk: Seq<Seq<char>>,
    keys: Map<Seq<char>, Seq<char>>,
) -> Request {
    Request {
        on_disk,
        keys,
        stage: if base_type == VOICE && lacks_media_key(on_disk, keys) {
            Stage::Lock
        } else {
            Stage::Done(Ok(false))
        },
    }
}

/// A request after an answer. Whether keys are missing is looked at again once the right to
/// extract is there. An answer that the request does not wait for changes nothing.
pub open spec fn answered(q: Request, a: Answer) -> Request {
    match (q.stage, a) {
        (Stage::Lock, Answer::Locked) => Request { stage: Stage::Reload, ..q },
        (Stage::Lock, Answer::LockTimedOut) => Request { stage: Stage::Done(Err(())), ..q },
        (Stage::Reload, Answer::Stored(keys)) => Request {
            keys,
            stage: if lacks_media_key(q.on_disk, keys) {
                Stage::Extract
            } else {
                Stage::Done(Ok(false))
            },
            ..q
        },
        (Stage::Extract, Answer::Extracted(extracted)) => Request {
            stage: if extracted == Map::<Seq<char>, Seq<char>>::empty() {
                Stage::Done(Ok(true))
            } else {
                Stage::SaveAndReload(extracted)
            },
            ..q
        },
        (Stage::Extract, Answer::ExtractionTimedOut) => Request {
            stage: Stage::Done(Err(())),
            ..q
        },
        (Stage::SaveAndReload(_), Answer::Stored(keys)) => Request {
            keys,
            stage: Stage::Done(Ok(true)),
            ..q
        },
        _ => q,
    }
}

/// Asks for the keys that the media of a message of the given type needs.
pub fn ensure_media_keys_for_message(
    base_type: i32,
    on_disk: Vec<String>,
    keys: KeyRing,
) -> (r: KeyRequest)
    ensures
        r@ == asked(base_type, texts(on_disk@), keys@),
{
    let stage = if base_type == VOICE && media_key_missing(on_disk.as_slice(), &keys) {
        KeyStage::Lock
    } else {
        KeyStage::Done(Ok(false))
    };
    KeyRequest { on_disk, keys, stage }
}

impl KeyRequest {
    /// Takes in an answer.
    pub fn resume(&mut self, event: KeyEvent)
        ensures
            final(self)@ == answered(old(self)@, event@),
    {
        match (&self.stage, event) {
            (KeyStage::Lock, KeyEvent::Locked) => {
                self.stage = KeyStage::Reload;
            },
            (KeyStage::Lock, KeyEvent::LockTimedOut) => {
                self.stage = KeyStage::Done(Err(()));
            },
            (KeyStage::Reload, KeyEvent::Stored(keys)) => {
                let missing = media_key_missing(self.on_disk.as_slice(), &keys);
                self.keys = keys;
                self.stage = if missing {
                    KeyStage::Extract
                } else {
                    KeyStage::Done(Ok(false))
                };
            },
            (KeyStage::Extract, KeyEvent::Extracted(extracted)) => {
                self.stage = if extracted.is_empty() {
                    KeyStage::Done(Ok(true))
                } else {
                    KeyStage::SaveAndReload(extracted)
                };
            },
            (KeyStage::Extract, KeyEvent::ExtractionTimedOut) => {
                self.stage = KeyStage::Done(Err(()));
            },
            (KeyStage::SaveAndReload(_), KeyEvent::Stored(keys)) => {
                self.keys = keys;
                self.stage = KeyStage::Done(Ok(true));
            },
            _ => {},
        }
    }
}

// ---------------------------------------------------------------------------
// Laws
// ---------------------------------------------------------------------------

/// How far a request has got.
pub open spec fn progress(stage: Stage) -> int {
    match stage {
        Stage::Lock => 0,
        Stage::Reload => 1,
        Stage::Extract => 2,
        Stage::SaveAndReload(_) => 3,
        Stage::Done(_) => 4,
    }
}

/// Whether a request holds the right to extract.
pub open spec fn holds_right(stage: Stage) -> bool {
    1 <= progress(stage) <= 3
}

/// A request never goes back, so it extracts at most once; once done it stays as it is.
pub proof fn law_request_advances(q: Request, a: Answer)
    ensures
        answered(q, a) == q || progress(q.stage) < progress(answered(q, a).stage),
        q.stage is Done ==> answered(q, a) == q,
{
}

/// A message that is no voice message, and one whose keys are all there, is done at once with the
/// keys that it has, and no answer makes it extract.
pub proof fn law_only_missing_voice_keys_are_extracted(
    base_type: i32,
    on_disk: Seq<Seq<char>>,
    keys: Map<Seq<char>, Seq<char>>,
    a: Answer,
)
    requires
        base_type != VOICE || !lacks_media_key(on_disk, keys),
    ensures
        asked(base_type, on_disk, keys) == (Request {
            on_disk,
            keys,
            stage: Stage::Done(Ok(false)),
        }),
        answered(asked(base_type, on_disk, keys), a) == asked(base_type, on_disk, keys),
{
}

/// A request begins to extract only with the right to do so, and only where the stored keys, read
/// after it got that right, still lack one.
pub proof fn law_extraction_is_checked_twice(q: Request, a: Answer)
    requires
        !(q.stage is Extract),
        answered(q, a).stage is Extract,
    ensures
        q.stage is Reload,
        a is Stored,
        lacks_media_key(q.on_disk, a->Stored_0),
        holds_right(q.stage),
{
}

/// Whether at most one of the requests holds the right to extract.
pub open spec fn one_holder(qs: Seq<Request>) -> bool {
    forall|i: int, j: int|
        0 <= i < qs.len() && 0 <= j < qs.len() && holds_right((#[trigger] qs[i]).stage)
            && holds_right((#[trigger] qs[j]).stage) ==> i == j
}

/// Extraction is single-flight: where the right is given only while nobody has it, at most one
/// request has it at any time, and so at most one extracts.
pub proof fn law_extraction_is_single_flight(qs: Seq<Request>, k: int, a: Answer)
    requires
        0 <= k < qs.len(),
        one_holder(qs),
        a is Locked ==> forall|i: int|
            0 <= i < qs.len() ==> !holds_right((#[trigger] qs[i]).stage),
    ensures
        one_holder(qs.update(k, answered(qs[k], a))),
{
    let next = qs.update(k, answered(qs[k], a));
    assert forall|i: int, j: int|
        0 <= i < next.len() && 0 <= j < next.len() && holds_right((#[trigger] next[i]).stage)
            && holds_right((#[trigger] next[j]).stage) implies i == j by {
        assert(i != k ==> next[i] == qs[i]);
        assert(j != k ==> next[j] == qs[j]);
        assert(holds_right(qs[i].stage) || i == k);
        assert(holds_right(qs[j].stage) || j == k);
    }
}

/// A request from the moment it gets the right to extract until it is done, with the stored keys
/// before and after. `extraction` is what an extraction would bring, nothing where it times out.
pub open spec fn served(
    store: Map<Seq<char>, Seq<char>>,
    q: Request,
    extraction: Option<Map<Seq<char>, Seq<char>>>,
) -> (Map<Seq<char>, Seq<char>>, Request) {
    let checked = answered(answered(q, Answer::Locked), Answer::Stored(store));
    if checked.stage is Extract {
        match extraction {
            None => (store, answered(checked, Answer::ExtractionTimedOut)),
            Some(keys) => {
                let extracted = answered(checked, Answer::Extracted(keys));
                if extracted.stage is SaveAndReload {
                    let saved = store.union_prefer_right(keys);
                    (saved, answered(extracted, Answer::Stored(saved)))
                } else {
                    (store, extracted)
                }
            },
        }
    } else {
        (store, checked)
    }
}

/// Whether a request that gets the right to extract does extract.
pub open spec fn extracts(store: Map<Seq<char>, Seq<char>>, q: Request) -> bool {
    answered(answered(q, Answer::Locked), Answer::Stored(store)).stage is Extract
}

/// The stored keys after the first `n` requests were served one after the other.
pub open spec fn store_after(
    store: Map<Seq<char>, Seq<char>>,
    qs: Seq<Request>,
    extractions: Seq<Option<Map<Seq<char>, Seq<char>>>>,
    n: nat,
) -> Map<Seq<char>, Seq<char>>
    decreases n,
{
    if n == 0 {
        store
    } else {
        served(
            store_after(store, qs, extractions, (n - 1) as nat),
            qs[n - 1],
            extractions[n - 1],
        ).0
    }
}

/// How many of the first `n` requests extract.
pub open spec fn extraction_count(
    store: Map<Seq<char>, Seq<char>>,
    qs: Seq<Request>,
    extractions: Seq<Option<Map<Seq<char>, Seq<char>>>>,
    n: nat,
) -> nat
    decreases n,
{
    if n == 0 {
        0
    } else {
        let before = store_after(store, qs, extractions, (n - 1) as nat);
        extraction_count(store, qs, extractions, (n - 1) as nat) + if extracts(
            before,
            qs[n - 1],
        ) {
            1nat
        } else {
            0nat
        }
    }
}

/// Queued requests for the same databases extract once in all: the first extraction that brings
/// the missing keys spares the others theirs, and every request is served with the keys that are
/// stored then.
pub proof fn law_queued_requests_extract_once(
    store: Map<Seq<char>, Seq<char>>,
    on_disk: Seq<Seq<char>>,
    qs: Seq<Request>,
    extractions: Seq<Option<Map<Seq<char>, Seq<char>>>>,
    n: nat,
)
    requires
        n <= qs.len(),
        qs.len() == extractions.len(),
        forall|i: int|
            0 <= i < qs.len() ==> (#[trigger] qs[i]).stage is Lock && qs[i].on_disk == on_disk,
        forall|i: int|
            0 <= i < extractions.len() ==> (#[trigger] extractions[i]) is Some && !lacks_media_key(
                on_disk,
                extractions[i]->Some_0,
            ),
    ensures
        extraction_count(store, qs, extractions, n) == (if n > 0 && lacks_media_key(
            on_disk,
            store,
        ) {
            1nat
        } else {
            0nat
        }),
        n > 0 || !lacks_media_key(on_disk, store) ==> !lacks_media_key(
            on_disk,
            store_after(store, qs, extractions, n),
        ),
        n > 0 ==> served(
            store_after(store, qs, extractions, (n - 1) as nat),
            qs[n - 1],
            extractions[n - 1],
        ).1.stage == Stage::Done(
            Ok(extracts(store_after(store, qs, extractions, (n - 1) as nat), qs[n - 1])),
        ),
        n > 0 ==> served(
            store_after(store, qs, extractions, (n - 1) as nat),
            qs[n - 1],
            extractions[n - 1],
        ).1.keys == store_after(store, qs, extractions, n),
    decreases n,
{
    if n > 0 {
        law_queued_requests_extract_once(store, on_disk, qs, extractions, (n - 1) as nat);
        let before = store_after(store, qs, extractions, (n - 1) as nat);
        assert(qs[n - 1].stage is Lock && qs[n - 1].on_disk == on_disk);
        assert(extractions[n - 1] is Some);
        let keys = extractions[n - 1]->Some_0;
        if lacks_media_key(on_disk, before) {
            let i = choose|i: int|
                0 <= i < on_disk.len() && is_media_db(#[trigger] on_disk[i])
                    && !before.dom().contains(on_disk[i]);
            assert(keys.dom().contains(on_disk[i]));
            assert(keys != Map::<Seq<char>, Seq<char>>::empty());
            let saved = before.union_prefer_right(keys);
            assert forall|j: int|
                0 <= j < on_disk.len() && is_media_db(#[trigger] on_disk[j]) implies saved.dom().contains(
                on_disk[j],
            ) by {
                assert(keys.dom().contains(on_disk[j]));
            }
        }
    }
}

// ---------------------------------------------------------------------------
// Laws: which keys are needed, and what each step is for
// ---------------------------------------------------------------------------

/// A database holds messages where its name begins and ends as theirs do and speaks neither of the
/// search index nor of resources; it holds voice recordings where its name begins and ends as
/// theirs do.
pub proof fn law_databases_go_by_name(name: Seq<char>)
    ensures
        is_message_db(name) <==> has_prefix(name, "message_"@) && has_suffix(name, ".db"@)
            && !has_part(name, "fts"@) && !has_part(name, "resource"@),
        is_media_db(name) <==> has_prefix(name, "media_"@) && has_suffix(name, ".db"@),
{
}

/// A key is missing exactly where a database on disk is of the kind and has none; keys of databases
/// that are not on disk do not matter.
pub proof fn law_missing_keys(
    on_disk: Seq<Seq<char>>,
    keys: Map<Seq<char>, Seq<char>>,
    more: Map<Seq<char>, Seq<char>>,
)
    ensures
        !lacks_message_key(on_disk, keys) <==> forall|i: int|
            0 <= i < on_disk.len() && is_message_db(#[trigger] on_disk[i]) ==> keys.dom().contains(
                on_disk[i],
            ),
        !lacks_media_key(on_disk, keys) <==> forall|i: int|
            0 <= i < on_disk.len() && is_media_db(#[trigger] on_disk[i]) ==> keys.dom().contains(
                on_disk[i],
            ),
        !has_message_key(keys) <==> forall|name: Seq<char>| #[trigger]
            keys.dom().contains(name) ==> !is_message_db(name),
        (forall|i: int|
            0 <= i < on_disk.len() ==> (keys.dom().contains(#[trigger] on_disk[i])
                <==> more.dom().contains(on_disk[i]))) ==> lacks_message_key(on_disk, keys)
            == lacks_message_key(on_disk, more) && lacks_media_key(on_disk, keys)
            == lacks_media_key(on_disk, more),
{
}

/// Nothing of a key ring, a request or an answer is lost in what it is taken to hold.
pub proof fn law_requests_say_all(r: KeyRing, q: KeyRequest, e: KeyEvent, name: Seq<char>)
    ensures
        r@.dom().contains(name) <==> r.keys@.dom().contains(name),
        r.keys@.dom().contains(name) ==> r@[name] == r.keys@[name]@,
        q@.on_disk == texts(q.on_disk@),
        q@.keys == q.keys@,
        q.stage is Lock <==> q@.stage is Lock,
        q.stage is Reload <==> q@.stage is Reload,
        q.stage is Extract <==> q@.stage is Extract,
        q.stage is SaveAndReload ==> q@.stage == Stage::SaveAndReload(q.stage->SaveAndReload_0@),
        q.stage is Done ==> q@.stage == Stage::Done(q.stage->Done_0),
        e is Locked ==> e@ is Locked,
        e is LockTimedOut ==> e@ is LockTimedOut,
        e is Stored ==> e@ == Answer::Stored(e->Stored_0@),
        e is Extracted ==> e@ == Answer::Extracted(e->Extracted_0@),
        e is ExtractionTimedOut ==> e@ is ExtractionTimedOut,
{
}

/// A voice message with a voice database without a key waits for the right to extract, with the keys
/// that there are. The type of a voice message is 34.
pub proof fn law_voice_asks_for_its_keys(
    base_type: i32,
    on_disk: Seq<Seq<char>>,
    keys: Map<Seq<char>, Seq<char>>,
)
    ensures
        asked(base_type, on_disk, keys).on_disk == on_disk,
        asked(base_type, on_disk, keys).keys == keys,
        asked(base_type, on_disk, keys).stage is Lock <==> base_type == 34 && exists|i: int|
            0 <= i < on_disk.len() && is_media_db(#[trigger] on_disk[i]) && !keys.dom().contains(
                on_disk[i],
            ),
        !(asked(base_type, on_disk, keys).stage is Lock) ==> asked(base_type, on_disk, keys).stage
            == Stage::Done(Ok(false)),
{
}

/// With the right to extract the stored keys are read again. Where they still lack one, keys are
/// extracted; what was extracted is stored as it is, and the stored keys are those that the request
/// ends with. Where nothing is lacking any more, or nothing was extracted, it ends with what it has.
pub proof fn law_extraction_goes_on(
    q: Request,
    stored: Map<Seq<char>, Seq<char>>,
    extracted: Map<Seq<char>, Seq<char>>,
)
    ensures
        q.stage is Lock ==> answered(q, Answer::Locked) == (Request { stage: Stage::Reload, ..q }),
        q.stage is Reload ==> {
            let next = answered(q, Answer::Stored(stored));
            &&& next.on_disk == q.on_disk
            &&& next.keys == stored
            &&& next.stage is Extract <==> exists|i: int|
                0 <= i < q.on_disk.len() && is_media_db(#[trigger] q.on_disk[i])
                    && !stored.dom().contains(q.on_disk[i])
            &&& !(next.stage is Extract) ==> next.stage == Stage::Done(Ok(false))
        },
        q.stage is Extract ==> {
            let next = answered(q, Answer::Extracted(extracted));
            &&& next.on_disk == q.on_disk
            &&& next.keys == q.keys
            &&& (exists|name: Seq<char>| #[trigger] extracted.dom().contains(name)) ==> next.stage
                == Stage::SaveAndReload(extracted)
            &&& (forall|name: Seq<char>| !#[trigger] extracted.dom().contains(name)) ==> next.stage
                == Stage::Done(Ok(true))
        },
        q.stage is SaveAndReload ==> answered(q, Answer::Stored(stored)) == (Request {
            keys: stored,
            stage: Stage::Done(Ok(true)),
            ..q
        }),
{
    if forall|name: Seq<char>| !#[trigger] extracted.dom().contains(name) {
        assert(extracted =~= Map::<Seq<char>, Seq<char>>::empty());
    }
}

/// A request that waits too long, for the right or for the extraction, gives up with the keys that
/// it has.
pub proof fn law_waiting_has_an_end(q: Request)
    ensures
        q.stage is Lock ==> answered(q, Answer::LockTimedOut) == (Request {
            stage: Stage::Done(Err(())),
            ..q
        }),
        q.stage is Extract ==> answered(q, Answer::ExtractionTimedOut) == (Request {
            stage: Stage::Done(Err(())),
            ..q
        }),
{
}

/// An answer that a request does not wait for changes nothing.
pub proof fn law_unasked_answers_change_nothing(q: Request, a: Answer)
    requires
        !(q.stage is Lock && (a is Locked || a is LockTimedOut)),
        !(q.stage is Reload && a is Stored),
        !(q.stage is Extract && (a is Extracted || a is ExtractionTimedOut)),
        !(q.stage is SaveAndReload && a is Stored),
    ensures
        answered(q, a) == q,
{
}

} // verus!
