//! Private snapshots of databases that another process is writing: where its write-ahead log is,
//! what has to be copied, and when a copy has to be repeated. The source is only ever read.

use crate::text::{opt_text, same_text, signed_decimal, signed_text, texts};
use crate::text_map::TextMap;
use vstd::prelude::*;

verus! {

// ---------------------------------------------------------------------------
// Signatures
// ---------------------------------------------------------------------------

/// What tells one state of a database file from another.
#[derive(Clone, Copy, Debug, PartialEq, Eq, Structural)]
pub struct SourceMainSignature {
    pub dev: u64,
    pub ino: u64,
    pub size: u64,
    pub mtime_sec: i64,
    pub mtime_nsec: i64,
}

impl SourceMainSignature {
    /// The signature of a file on a system that tells no more of it than its size and when it was
    /// modified, in seconds and nanoseconds since the start of the epoch.
    pub fn from_modified(size: u64, modified: Option<(u64, u32)>) -> (r: SourceMainSignature)
        ensures
            r == (SourceMainSignature {
                dev: 0,
                ino: 0,
                size,
                mtime_sec: match modified {
                    Some((secs, _)) => secs as i64,
                    None => 0,
                },
                mtime_nsec: match modified {
                    Some((_, nanos)) => nanos as i64,
                    None => 0,
                },
            }),
    {
        let (mtime_sec, mtime_nsec): (i64, i64) = match modified {
            Some((secs, nanos)) => (secs as i64, nanos as i64),
            None => (0, 0),
        };
        SourceMainSignature { dev: 0, ino: 0, size, mtime_sec, mtime_nsec }
    }
}

/// What tells one state of a write-ahead log from another: its size, and the salts that change
/// with every generation of the log.
#[derive(Clone, Copy, Debug, PartialEq, Eq, Structural)]
pub struct WalSignature {
    pub size: u64,
    pub salt1: u32,
    pub salt2: u32,
}

/// The number that four bytes from `at` on stand for, the highest first.
pub open spec fn big_endian(bytes: Seq<u8>, at: int) -> int {
    bytes[at] * 0x100_0000 + bytes[at + 1] * 0x1_0000 + bytes[at + 2] * 0x100 + bytes[at + 3]
}

fn read_big_endian(bytes: &[u8], at: usize) -> (r: u32)
    requires
        at + 4 <= bytes@.len(),
    ensures
        r == big_endian(bytes@, at as int),
{
    bytes[at] as u32 * 0x100_0000 + bytes[at + 1] as u32 * 0x1_0000 + bytes[at + 2] as u32 * 0x100
        + bytes[at + 3] as u32
}

/// The signature of a log of the given size that begins with `header`. A log without a whole
/// header has no salts.
pub open spec fn wal_signature(size: u64, header: Seq<u8>) -> WalSignature {
    if header.len() >= 24 {
        WalSignature {
            size,
            salt1: big_endian(header, 16) as u32,
            salt2: big_endian(header, 20) as u32,
        }
    } else {
        WalSignature { size, salt1: 0, salt2: 0 }
    }
}

impl WalSignature {
    /// The signature of a log, by its size and the bytes that it begins with.
    pub fn from_header(size: u64, header: &[u8]) -> (r: WalSignature)
        ensures
            r == wal_signature(size, header@),
    {
        if header.len() >= 24 {
            WalSignature {
                size,
                salt1: read_big_endian(header, 16),
                salt2: read_big_endian(header, 20),
            }
        } else {
            WalSignature { size, salt1: 0, salt2: 0 }
        }
    }
}

// ---------------------------------------------------------------------------
// The live log
// ---------------------------------------------------------------------------

/// The name that the write-ahead log of a database has.
pub open spec fn wal_name(db: Seq<char>) -> Seq<char> {
    db + "-wal"@
}

/// What an open descriptor of a removed file points to.
pub open spec fn removed(path: Seq<char>) -> Seq<char> {
    path + " (deleted)"@
}

/// Whether a descriptor points to the log of the database at `source`, removed or not.
pub open spec fn is_wal_of(target: Seq<char>, source: Seq<char>) -> bool {
    target == wal_name(source) || target == removed(wal_name(source))
}

/// Whether a descriptor points to the log of a database, by its path as it was given or by its
/// canonical path.
pub open spec fn is_live_wal(
    target: Seq<char>,
    source: Seq<char>,
    canonical: Option<Seq<char>>,
) -> bool {
    is_wal_of(target, source) || (canonical is Some && is_wal_of(target, canonical->Some_0))
}

/// The first of `targets` that is the log of the database. A descriptor without a target that can
/// be read is passed over.
pub open spec fn live_wal_index(
    source: Seq<char>,
    canonical: Option<Seq<char>>,
    targets: Seq<Option<Seq<char>>>,
    i: int,
) -> bool {
    &&& 0 <= i < targets.len()
    &&& targets[i] is Some
    &&& is_live_wal(targets[i]->Some_0, source, canonical)
    &&& forall|j: int|
        0 <= j < i ==> !((#[trigger] targets[j]) is Some && is_live_wal(
            targets[j]->Some_0,
            source,
            canonical,
        ))
}

/// The texts of optional strings.
pub open spec fn opt_texts(strings: Seq<Option<String>>) -> Seq<Option<Seq<char>>> {
    strings.map_values(|s: Option<String>| opt_text(s))
}

fn target_is_wal_of(target: &str, source: &str) -> (r: bool)
    ensures
        r == is_wal_of(target@, source@),
{
    let mut wal = source.to_owned();
    wal.append("-wal");
    if same_text(target, wal.as_str()) {
        return true;
    }
    wal.append(" (deleted)");
    same_text(target, wal.as_str())
}

/// Finds the log of a database among the targets of the open descriptors of a process.
pub fn find_live_wal_from_proc_fd(
    source: &str,
    canonical: &Option<String>,
    targets: &[Option<String>],
) -> (r: Option<usize>)
    ensures
        match r {
            Some(i) => live_wal_index(
                source@,
                opt_text(*canonical),
                opt_texts(targets@),
                i as int,
            ),
            None => forall|i: int|
                !live_wal_index(source@, opt_text(*canonical), opt_texts(targets@), i),
        },
{
    let ghost all = opt_texts(targets@);
    let mut i: usize = 0;
    while i < targets.len()
        invariant
            i <= targets.len(),
            all == opt_texts(targets@),
            forall|j: int|
                0 <= j < i ==> !((#[trigger] all[j]) is Some && is_live_wal(
                    all[j]->Some_0,
                    source@,
                    opt_text(*canonical),
                )),
        decreases targets.len() - i,
    {
        assert(all[i as int] == opt_text(targets@[i as int]));
        if let Some(target) = &targets[i] {
            let canonical_match = match canonical {
                Some(c) => target_is_wal_of(target.as_str(), c.as_str()),
                None => false,
            };
            if target_is_wal_of(target.as_str(), source) || canonical_match {
                return Some(i);
            }
        }
        i += 1;
    }
    None
}

/// What the search for the log of a database waits for.
#[derive(Debug)]
pub enum WalSearch {
    /// Whether a file of this name lies beside the database.
    Beside { file: String },
    /// The process that has the database open.
    Process,
    /// The targets of the open descriptors in this directory, and the canonical path of the
    /// database.
    Descriptors { dir: String },
    /// Nothing: this is the log, if there is one.
    Done(Option<WalPlace>),
}

/// Where the log of a database is.
#[derive(Debug, Clone, PartialEq, Eq)]
pub enum WalPlace {
    /// In a file of this name beside the database.
    Beside(String),
    /// Behind the descriptor at this place.
    Descriptor(usize),
}

/// What the outside world answers.
#[derive(Debug)]
pub enum WalEvent {
    BesideExists(bool),
    Process(Option<i64>),
    Descriptors { canonical: Option<String>, targets: Option<Vec<Option<String>>> },
}

/// What a [`WalSearch`] is.
pub enum Search {
    Beside { file: Seq<char> },
    Process,
    Descriptors { dir: Seq<char> },
    Done(Option<Place>),
}

/// What a [`WalPlace`] is.
pub enum Place {
    Beside(Seq<char>),
    Descriptor(int),
}

/// What a [`WalEvent`] says.
pub enum Finding {
    BesideExists(bool),
    Process(Option<i64>),
    Descriptors { canonical: Option<Seq<char>>, targets: Option<Seq<Option<Seq<char>>>> },
}

impl View for WalPlace {
    type V = Place;

    open spec fn view(&self) -> Place {
        match *self {
            WalPlace::Beside(file) => Place::Beside(file@),
            WalPlace::Descriptor(i) => Place::Descriptor(i as int),
        }
    }
}

impl View for WalSearch {
    type V = Search;

    open spec fn view(&self) -> Search {
        match *self {
            WalSearch::Beside { file } => Search::Beside { file: file@ },
            WalSearch::Process => Search::Process,
            WalSearch::Descriptors { dir } => Search::Descriptors { dir: dir@ },
            WalSearch::Done(place) => Search::Done(
                match place {
                    Some(p) => Some(p@),
                    None => None,
                },
            ),
        }
    }
}

impl View for WalEvent {
    type V = Finding;

    open spec fn view(&self) -> Finding {
        match *self {
            WalEvent::BesideExists(b) => Finding::BesideExists(b),
            WalEvent::Process(pid) => Finding::Process(pid),
            WalEvent::Descriptors { canonical, targets } => Finding::Descriptors {
                canonical: opt_text(canonical),
                targets: match targets {
                    Some(t) => Some(opt_texts(t@)),
                    None => None,
                },
            },
        }
    }
}

/// A search at its beginning: the log is looked for beside the database, where that has a name.
pub open spec fn searched_from(db_file: Option<Seq<char>>) -> Search {
    match db_file {
        Some(file) => Search::Beside { file: wal_name(file) },
        None => Search::Done(None),
    }
}

/// The place of the first descriptor that is the log, if one is.
pub open spec fn descriptor_place(
    source: Seq<char>,
    canonical: Option<Seq<char>>,
    targets: Seq<Option<Seq<char>>>,
) -> Option<Place> {
    if exists|i: int| live_wal_index(source, canonical, targets, i) {
        Some(
            Place::Descriptor(choose|i: int| live_wal_index(source, canonical, targets, i)),
        )
    } else {
        None
    }
}

/// A search after an answer: where there is no file beside the database, the descriptors of the
/// process are looked through. An answer that the search does not wait for changes nothing.
pub open spec fn search_on(s: Search, source: Seq<char>, finding: Finding) -> Search {
    match (s, finding) {
        (Search::Beside { file }, Finding::BesideExists(exists)) => if exists {
            Search::Done(Some(Place::Beside(file)))
        } else {
            Search::Process
        },
        (Search::Process, Finding::Process(pid)) => match pid {
            Some(pid) => Search::Descriptors {
                dir: "/proc/"@ + signed_text(pid as int) + "/fd"@,
            },
            None => Search::Done(None),
        },
        (Search::Descriptors { .. }, Finding::Descriptors { canonical, targets }) => Search::Done(
            match targets {
                Some(t) => descriptor_place(source, canonical, t),
                None => None,
            },
        ),
        _ => s,
    }
}

/// Begins the search for the live log of a database by the name of its file.
pub fn find_live_wal_path(db_file: Option<&str>) -> (r: WalSearch)
    ensures
        r@ == searched_from(
            match db_file {
                Some(file) => Some(file@),
                None => None,
            },
        ),
{
    match db_file {
        Some(file) => {
            let mut wal = file.to_owned();
            wal.append("-wal");
            WalSearch::Beside { file: wal }
        },
        None => WalSearch::Done(None),
    }
}

proof fn lemma_first_is_unique(
    source: Seq<char>,
    canonical: Option<Seq<char>>,
    targets: Seq<Option<Seq<char>>>,
    i: int,
    j: int,
)
    requires
        live_wal_index(source, canonical, targets, i),
        live_wal_index(source, canonical, targets, j),
    ensures
        i == j,
{
    if i < j {
        assert(targets[i] is Some);
    } else if j < i {
        assert(targets[j] is Some);
    }
}

impl WalSearch {
    /// Takes in an answer. `source` is the path of the database.
    pub fn resume(self, source: &str, event: WalEvent) -> (r: WalSearch)
        ensures
            r@ == search_on(self@, source@, event@),
    {
        match (self, event) {
            (WalSearch::Beside { file }, WalEvent::BesideExists(exists)) => if exists {
                WalSearch::Done(Some(WalPlace::Beside(file)))
            } else {
                WalSearch::Process
            },
            (WalSearch::Process, WalEvent::Process(pid)) => match pid {
                Some(pid) => {
                    let mut dir = "/proc/".to_owned();
                    let number = signed_decimal(pid);
                    dir.append(number.as_str());
                    dir.append("/fd");
                    WalSearch::Descriptors { dir }
                },
                None => WalSearch::Done(None),
            },
            (WalSearch::Descriptors { .. }, WalEvent::Descriptors { canonical, targets }) => {
                match targets {
                    Some(targets) => {
                        let ghost all = opt_texts(targets@);
                        let ghost c = opt_text(canonical);
                        match find_live_wal_from_proc_fd(source, &canonical, targets.as_slice()) {
                            Some(i) => {
                                proof {
                                    assert(live_wal_index(source@, c, all, i as int));
                                    let k = choose|k: int| live_wal_index(source@, c, all, k);
                                    lemma_first_is_unique(source@, c, all, i as int, k);
                                }
                                WalSearch::Done(Some(WalPlace::Descriptor(i)))
                            },
                            None => WalSearch::Done(None),
                        }
                    },
                    None => WalSearch::Done(None),
                }
            },
            (search, _) => search,
        }
    }
}

/// A log that lies beside its database is taken from there, and the process is not looked at.
pub proof fn law_named_log_comes_first(db_file: Seq<char>, source: Seq<char>)
    ensures
        search_on(searched_from(Some(db_file)), source, Finding::BesideExists(true))
            == Search::Done(Some(Place::Beside(wal_name(db_file)))),
{
}

/// A descriptor that is taken for the log points to the log of that very database: its path is
/// the path of the database, given or canonical, with the ending of a log, removed or not.
pub proof fn law_only_own_log_is_found(
    source: Seq<char>,
    canonical: Option<Seq<char>>,
    targets: Seq<Option<Seq<char>>>,
    dir: Seq<char>,
)
    ensures
        ({
            let found = search_on(
                Search::Descriptors { dir },
                source,
                Finding::Descriptors { canonical, targets: Some(targets) },
            );
            &&& found is Done
            &&& match found->Done_0 {
                Some(Place::Descriptor(i)) => 0 <= i < targets.len() && targets[i] is Some
                    && is_live_wal(targets[i]->Some_0, source, canonical),
                Some(_) => false,
                None => forall|i: int|
                    0 <= i < targets.len() ==> !((#[trigger] targets[i]) is Some && is_live_wal(
                        targets[i]->Some_0,
                        source,
                        canonical,
                    )),
            }
        }),
{
    if exists|i: int| live_wal_index(source, canonical, targets, i) {
    } else {
        assert forall|i: int| 0 <= i < targets.len() implies !((#[trigger] targets[i]) is Some
            && is_live_wal(targets[i]->Some_0, source, canonical)) by {
            lemma_no_first(source, canonical, targets, i);
        }
    }
}

proof fn lemma_no_first(
    source: Seq<char>,
    canonical: Option<Seq<char>>,
    targets: Seq<Option<Seq<char>>>,
    n: int,
)
    requires
        0 <= n < targets.len(),
        forall|i: int| !live_wal_index(source, canonical, targets, i),
    ensures
        !(targets[n] is Some && is_live_wal(targets[n]->Some_0, source, canonical)),
    decreases n,
{
    assert forall|j: int| 0 <= j < n implies !((#[trigger] targets[j]) is Some && is_live_wal(
        targets[j]->Some_0,
        source,
        canonical,
    )) by {
        lemma_no_first(source, canonical, targets, j);
    }
    assert(!live_wal_index(source, canonical, targets, n));
}

// ---------------------------------------------------------------------------
// The private cache
// ---------------------------------------------------------------------------

/// The parts of the path of the private cache of a database: under the directory that was
/// configured, else under the data directory where there is one, else under the directory for
/// temporary files.
pub open spec fn cache_dir(
    custom: Option<Seq<char>>,
    data_exists: bool,
    temp_dir: Seq<char>,
    session_id: Seq<char>,
    db_name: Seq<char>,
) -> Seq<Seq<char>> {
    match custom {
        Some(dir) => seq![dir, session_id, db_name],
        None => if data_exists {
            seq!["/data/live-db-cache"@, session_id, db_name]
        } else {
            seq![temp_dir, "live-db-cache"@, session_id, db_name]
        },
    }
}

/// The parts of the path of the private cache of a database, to be joined in their order.
pub fn get_cache_dir(
    custom: Option<&str>,
    data_exists: bool,
    temp_dir: &str,
    session_id: &str,
    db_name: &str,
) -> (r: Vec<String>)
    ensures
        texts(r@) == cache_dir(
            match custom {
                Some(dir) => Some(dir@),
                None => None,
            },
            data_exists,
            temp_dir@,
            session_id@,
            db_name@,
        ),
{
    let mut parts: Vec<String> = Vec::new();
    match custom {
        Some(dir) => {
            parts.push(dir.to_owned());
        },
        None => if data_exists {
            parts.push("/data/live-db-cache".to_owned());
        } else {
            parts.push(temp_dir.to_owned());
            parts.push("live-db-cache".to_owned());
        },
    }
    parts.push(session_id.to_owned());
    parts.push(db_name.to_owned());
    assert(texts(parts@) =~= cache_dir(
        match custom {
            Some(dir) => Some(dir@),
            None => None,
        },
        data_exists,
        temp_dir@,
        session_id@,
        db_name@,
    ));
    parts
}

/// Within a session each database has a cache of its own.
pub proof fn law_caches_are_apart(
    custom: Option<Seq<char>>,
    data_exists: bool,
    temp_dir: Seq<char>,
    session_id: Seq<char>,
    db_name: Seq<char>,
    other: Seq<char>,
)
    requires
        db_name != other,
    ensures
        cache_dir(custom, data_exists, temp_dir, session_id, db_name) != cache_dir(
            custom,
            data_exists,
            temp_dir,
            session_id,
            other,
        ),
{
    let a = cache_dir(custom, data_exists, temp_dir, session_id, db_name);
    let b = cache_dir(custom, data_exists, temp_dir, session_id, other);
    assert(a.last() == db_name);
    assert(b.last() == other);
}

/// The locks that serialise the work on one database: each database has one, known by a number.
#[derive(Debug)]
pub struct DbLocks {
    numbers: TextMap<usize>,
    count: usize,
}

impl View for DbLocks {
    type V = Map<Seq<char>, usize>;

    closed spec fn view(&self) -> Map<Seq<char>, usize> {
        self.numbers@
    }
}

impl DbLocks {
    /// How many locks were given out.
    pub closed spec fn given(&self) -> nat {
        self.count as nat
    }

    /// Whether no two databases share a lock, and every number is that of a lock given out. It is so
    /// of all locks that are made and given out here.
    #[verifier::type_invariant]
    pub closed spec fn apart(&self) -> bool {
        &&& forall|a: Seq<char>, b: Seq<char>|
            self@.dom().contains(a) && self@.dom().contains(b) && #[trigger] self@[a]
                == #[trigger] self@[b] ==> a == b
        &&& forall|a: Seq<char>| self@.dom().contains(a) ==> #[trigger] self@[a] < self.count
    }

    /// No locks.
    pub fn new() -> (r: DbLocks)
        ensures
            r@ == Map::<Seq<char>, usize>::empty(),
            r.given() == 0,
            r.apart(),
    {
        DbLocks { numbers: TextMap::new(), count: 0 }
    }

    /// Two databases have the same lock only where they are the same, and every lock has been given
    /// out.
    pub proof fn law_locks_are_apart(&self, a: Seq<char>, b: Seq<char>)
        requires
            self.apart(),
            self@.dom().contains(a),
            self@.dom().contains(b),
        ensures
            self@[a] == self@[b] <==> a == b,
            self@[a] < self.given(),
    {
    }

    /// The number of the lock of a database: the one that it had before, or the next one.
    pub fn get_db_lock(&mut self, db_name: &str) -> (r: usize)
        requires
            old(self)@.dom().contains(db_name@) || old(self).given() < usize::MAX,
        ensures
            final(self).apart(),
            final(self)@ == old(self)@.insert(db_name@, r),
            r == (if old(self)@.dom().contains(db_name@) {
                old(self)@[db_name@] as nat
            } else {
                old(self).given()
            }),
            final(self).given() == old(self).given() + (if old(self)@.dom().contains(db_name@) {
                0nat
            } else {
                1nat
            }),
    {
        proof {
            use_type_invariant(&*self);
        }
        if let Some(n) = self.numbers.get(db_name) {
            let n: usize = *n;
            assert(self@ =~= self@.insert(db_name@, n));
            return n;
        }
        let n: usize = self.count;
        let mut numbers: TextMap<usize> = TextMap::new();
        std::mem::swap(&mut numbers, &mut self.numbers);
        numbers.insert(db_name.to_owned(), n);
        self.count = n + 1;
        self.numbers = numbers;
        n
    }

    /// How many locks were given out.
    pub fn given_out(&self) -> (r: usize)
        ensures
            r == self.given(),
    {
        self.count
    }
}

// ---------------------------------------------------------------------------
// Laws: signatures, places and locks
// ---------------------------------------------------------------------------

/// The signature of a log tells its size and, where the header is whole, the two salts that stand in
/// it from the seventeenth byte on, four bytes each and the highest first.
pub proof fn law_salts_are_read(size: u64, header: Seq<u8>)
    ensures
        wal_signature(size, header).size == size,
        header.len() >= 24 ==> {
            &&& wal_signature(size, header).salt1 == header[16] * 0x100_0000 + header[17] * 0x1_0000
                + header[18] * 0x100 + header[19]
            &&& wal_signature(size, header).salt2 == header[20] * 0x100_0000 + header[21] * 0x1_0000
                + header[22] * 0x100 + header[23]
        },
        header.len() < 24 ==> wal_signature(size, header).salt1 == 0 && wal_signature(
            size,
            header,
        ).salt2 == 0,
{
}

/// Logs that differ in size or in one byte of their salts have different signatures.
pub proof fn law_signatures_tell_logs_apart(a: u64, x: Seq<u8>, b: u64, y: Seq<u8>)
    requires
        x.len() >= 24,
        y.len() >= 24,
        wal_signature(a, x) == wal_signature(b, y),
    ensures
        a == b,
        forall|i: int| 16 <= i < 24 ==> x[i] == y[i],
{
    assert(x[16] == y[16] && x[17] == y[17] && x[18] == y[18] && x[19] == y[19]);
    assert(x[20] == y[20] && x[21] == y[21] && x[22] == y[22] && x[23] == y[23]);
}

/// A log lies under the name of its database with an ending of its own. A descriptor is that of the
/// log exactly where it points there, from the path as it was given or from the canonical one, and
/// also where the log has been removed meanwhile.
pub proof fn law_logs_go_by_name(
    target: Seq<char>,
    source: Seq<char>,
    canonical: Option<Seq<char>>,
)
    ensures
        wal_name(source) == source + "-wal"@,
        is_live_wal(target, source, canonical) <==> {
            ||| target == source + "-wal"@
            ||| target == source + "-wal"@ + " (deleted)"@
            ||| canonical is Some && target == canonical->Some_0 + "-wal"@
            ||| canonical is Some && target == canonical->Some_0 + "-wal"@ + " (deleted)"@
        },
{
}

/// Nothing of a search or an answer is lost in what it is taken for.
pub proof fn law_searches_say_all(s: WalSearch, e: WalEvent)
    ensures
        s is Beside ==> s@ == (Search::Beside { file: s->file@ }),
        s is Process <==> s@ is Process,
        s is Descriptors ==> s@ == (Search::Descriptors { dir: s->dir@ }),
        s is Done ==> s@ is Done && (s->Done_0 is Some <==> s@->Done_0 is Some),
        s is Done && s->Done_0 is Some && s->Done_0->Some_0 is Beside ==> s@->Done_0->Some_0
            == Place::Beside(s->Done_0->Some_0->Beside_0@),
        s is Done && s->Done_0 is Some && s->Done_0->Some_0 is Descriptor ==> s@->Done_0->Some_0
            == Place::Descriptor(s->Done_0->Some_0->Descriptor_0 as int),
        e is BesideExists ==> e@ == Finding::BesideExists(e->BesideExists_0),
        e is Process ==> e@ == Finding::Process(e->Process_0),
        e is Descriptors ==> e@ is Descriptors && e@->canonical == opt_text(e->canonical) && (
        e@->targets is Some <==> e->targets is Some),
        e is Descriptors && e->targets is Some ==> e@->targets->Some_0 == opt_texts(
            e->targets->Some_0@,
        ),
{
}

/// The texts of optional strings are theirs, one for one.
pub proof fn law_opt_texts(strings: Seq<Option<String>>, i: int)
    ensures
        opt_texts(strings).len() == strings.len(),
        0 <= i < strings.len() ==> opt_texts(strings)[i] == opt_text(strings[i]),
{
}

/// The search begins beside the database. Where no log lies there, the process that has the database
/// open is asked for, and its descriptors are looked through, in its directory; the first that is
/// the log is taken. Without a process, and without descriptors that can be read, there is no log.
pub proof fn law_log_is_searched(
    file: Seq<char>,
    source: Seq<char>,
    pid: i64,
    dir: Seq<char>,
    canonical: Option<Seq<char>>,
    targets: Seq<Option<Seq<char>>>,
    k: int,
)
    ensures
        searched_from(Some(file)) == (Search::Beside { file: file + "-wal"@ }),
        searched_from(None) == Search::Done(None),
        search_on(Search::Beside { file }, source, Finding::BesideExists(true)) == Search::Done(
            Some(Place::Beside(file)),
        ),
        search_on(Search::Beside { file }, source, Finding::BesideExists(false)) is Process,
        search_on(Search::Process, source, Finding::Process(Some(pid))) == (Search::Descriptors {
            dir: "/proc/"@ + signed_text(pid as int) + "/fd"@,
        }),
        search_on(Search::Process, source, Finding::Process(None)) == Search::Done(None),
        search_on(
            Search::Descriptors { dir },
            source,
            Finding::Descriptors { canonical, targets: None },
        ) == Search::Done(None),
        0 <= k < targets.len() && targets[k] is Some && is_live_wal(
            targets[k]->Some_0,
            source,
            canonical,
        ) && (forall|j: int|
            0 <= j < k && (#[trigger] targets[j]) is Some ==> !is_live_wal(
                targets[j]->Some_0,
                source,
                canonical,
            )) ==> search_on(
            Search::Descriptors { dir },
            source,
            Finding::Descriptors { canonical, targets: Some(targets) },
        ) == Search::Done(Some(Place::Descriptor(k))),
{
    if 0 <= k < targets.len() && targets[k] is Some && is_live_wal(
        targets[k]->Some_0,
        source,
        canonical,
    ) && (forall|j: int|
        0 <= j < k && (#[trigger] targets[j]) is Some ==> !is_live_wal(
            targets[j]->Some_0,
            source,
            canonical,
        )) {
        assert(live_wal_index(source, canonical, targets, k));
        let i = choose|i: int| live_wal_index(source, canonical, targets, i);
        lemma_first_is_unique(source, canonical, targets, i, k);
    }
}

/// The cache of a database lies under the directory that was configured; without one under the data
/// directory, where that exists, and else under the directory for temporary files. In it each
/// session has its own directory, and in that each database.
pub proof fn law_cache_has_its_place(
    dir: Seq<char>,
    data_exists: bool,
    temp_dir: Seq<char>,
    session_id: Seq<char>,
    db_name: Seq<char>,
)
    ensures
        cache_dir(Some(dir), data_exists, temp_dir, session_id, db_name) == seq![
            dir,
            session_id,
            db_name,
        ],
        cache_dir(None, true, temp_dir, session_id, db_name) == seq![
            "/data/live-db-cache"@,
            session_id,
            db_name,
        ],
        cache_dir(None, false, temp_dir, session_id, db_name) == seq![
            temp_dir,
            "live-db-cache"@,
            session_id,
            db_name,
        ],
{
}

/// An answer that a search does not wait for changes nothing.
pub proof fn law_unasked_findings_change_nothing(s: Search, source: Seq<char>, finding: Finding)
    requires
        !(s is Beside && finding is BesideExists),
        !(s is Process && finding is Process),
        !(s is Descriptors && finding is Descriptors),
    ensures
        search_on(s, source, finding) == s,
{
}

} // verus!
