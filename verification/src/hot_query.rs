//! Queries on the snapshot of a database: the steps in their order, and what becomes of the rows.

use crate::snapshot::{
    Cache, FileRole, Job, Report, is_source, law_refresh_leaves_the_source_alone, may_leave,
    refreshed, same_file, same_source, told,
};
use crate::text::{hex_text, hex_upper, hex_value, law_hexadecimal, texts};
use crate::text_map::TextMap;
use vstd::prelude::*;
use vstd::utf8::{decode_utf8, decode_utf8_encode_utf8, encode_utf8, valid_utf8};

verus! {

// ---------------------------------------------------------------------------
// Values
// ---------------------------------------------------------------------------

/// A cell of a row as the database has it. A real number stands as its bits.
#[derive(Debug, Clone)]
pub enum Cell {
    Null,
    Integer(i64),
    Real(u64),
    Text(Vec<u8>),
    Blob(Vec<u8>),
    Unreadable,
}

/// A value as a row is handed out with. A real number stands as its bits.
#[derive(Debug, Clone, PartialEq, Eq)]
pub enum JsonValue {
    Null,
    Integer(i64),
    Real(u64),
    Text(String),
}

/// What a [`Cell`] holds.
pub enum CellModel {
    Null,
    Integer(i64),
    Real(u64),
    Text(Seq<u8>),
    Blob(Seq<u8>),
    Unreadable,
}

/// What a [`JsonValue`] is.
pub enum ValueModel {
    Null,
    Integer(i64),
    Real(u64),
    Text(Seq<char>),
}

impl View for Cell {
    type V = CellModel;

    open spec fn view(&self) -> CellModel {
        match *self {
            Cell::Null => CellModel::Null,
            Cell::Integer(n) => CellModel::Integer(n),
            Cell::Real(bits) => CellModel::Real(bits),
            Cell::Text(bytes) => CellModel::Text(bytes@),
            Cell::Blob(bytes) => CellModel::Blob(bytes@),
            Cell::Unreadable => CellModel::Unreadable,
        }
    }
}

impl View for JsonValue {
    type V = ValueModel;

    open spec fn view(&self) -> ValueModel {
        match *self {
            JsonValue::Null => ValueModel::Null,
            JsonValue::Integer(n) => ValueModel::Integer(n),
            JsonValue::Real(bits) => ValueModel::Real(bits),
            JsonValue::Text(s) => ValueModel::Text(s@),
        }
    }
}

/// What `String::from_utf8_lossy` makes of bytes that are not all UTF-8.
pub uninterp spec fn lossy_utf8(bytes: Seq<u8>) -> Seq<char>;

/// The text of bytes: what they encode, with replacements where they encode nothing.
pub open spec fn utf8_text(bytes: Seq<u8>) -> Seq<char> {
    if valid_utf8(bytes) {
        decode_utf8(bytes)
    } else {
        lossy_utf8(bytes)
    }
}

/// Calls `String::from_utf8_lossy`. The contract claims that valid UTF-8 is decoded, and that of
/// any other bytes the text depends on the bytes alone.
#[verifier::external_body]
fn std_from_utf8_lossy(bytes: &[u8]) -> (r: String)
    ensures
        valid_utf8(bytes@) ==> r@ == decode_utf8(bytes@),
        !valid_utf8(bytes@) ==> r@ == lossy_utf8(bytes@),
{
    String::from_utf8_lossy(bytes).into_owned()
}

/// Whether the bits of a real number stand for a number: the exponent of the others is all ones.
pub open spec fn is_number(bits: u64) -> bool {
    (bits as int / 0x10_0000_0000_0000) % 0x800 != 0x7ff
}

/// What a cell is handed out as. What is no number is nothing, text is decoded, and bytes are
/// written in hexadecimal.
pub open spec fn json_of(cell: CellModel) -> ValueModel {
    match cell {
        CellModel::Null => ValueModel::Null,
        CellModel::Integer(n) => ValueModel::Integer(n),
        CellModel::Real(bits) => if is_number(bits) {
            ValueModel::Real(bits)
        } else {
            ValueModel::Null
        },
        CellModel::Text(bytes) => ValueModel::Text(utf8_text(bytes)),
        CellModel::Blob(bytes) => ValueModel::Text(hex_text(bytes)),
        CellModel::Unreadable => ValueModel::Null,
    }
}

impl Cell {
    /// What the cell is handed out as.
    pub fn to_json(&self) -> (r: JsonValue)
        ensures
            r@ == json_of(self@),
    {
        match self {
            Cell::Null => JsonValue::Null,
            Cell::Integer(n) => JsonValue::Integer(*n),
            Cell::Real(bits) => if (*bits / 0x10_0000_0000_0000) % 0x800 != 0x7ff {
                JsonValue::Real(*bits)
            } else {
                JsonValue::Null
            },
            Cell::Text(bytes) => JsonValue::Text(std_from_utf8_lossy(bytes.as_slice())),
            Cell::Blob(bytes) => JsonValue::Text(hex_upper(bytes.as_slice())),
            Cell::Unreadable => JsonValue::Null,
        }
    }
}

// ---------------------------------------------------------------------------
// Rows
// ---------------------------------------------------------------------------

/// A row, each value under the name of its column.
#[derive(Debug)]
pub struct Row {
    pub values: TextMap<JsonValue>,
}

impl View for Row {
    type V = Map<Seq<char>, ValueModel>;

    open spec fn view(&self) -> Map<Seq<char>, ValueModel> {
        self.values@.map_values(|v: JsonValue| v@)
    }
}

/// The models of cells.
pub open spec fn cell_models(cells: Seq<Cell>) -> Seq<CellModel> {
    cells.map_values(|c: Cell| c@)
}

/// The cell of a column; a column without a cell is unreadable.
pub open spec fn cell_of(cells: Seq<CellModel>, i: int) -> CellModel {
    if 0 <= i < cells.len() {
        cells[i]
    } else {
        CellModel::Unreadable
    }
}

/// The row of the first `n` columns. Of columns with the same name the last one counts.
pub open spec fn row_of(columns: Seq<Seq<char>>, cells: Seq<CellModel>, n: nat) -> Map<
    Seq<char>,
    ValueModel,
>
    decreases n,
{
    if n == 0 {
        Map::empty()
    } else {
        row_of(columns, cells, (n - 1) as nat).insert(
            columns[n - 1],
            json_of(cell_of(cells, n - 1)),
        )
    }
}

/// Makes a row of the cells of the columns.
pub fn make_row(columns: &[String], cells: &[Cell]) -> (r: Row)
    ensures
        r@ == row_of(texts(columns@), cell_models(cells@), columns@.len()),
{
    let mut row = Row { values: TextMap::new() };
    assert(row@ =~= Map::<Seq<char>, ValueModel>::empty());
    let mut i: usize = 0;
    while i < columns.len()
        invariant
            i <= columns.len(),
            row@ == row_of(texts(columns@), cell_models(cells@), i as nat),
        decreases columns.len() - i,
    {
        let value = if i < cells.len() {
            assert(cell_models(cells@)[i as int] == cells@[i as int]@);
            cells[i].to_json()
        } else {
            JsonValue::Null
        };
        assert(value@ == json_of(cell_of(cell_models(cells@), i as int)));
        let ghost before = row;
        row.values.insert(columns[i].clone(), value);
        assert(texts(columns@)[i as int] == columns@[i as int]@);
        assert(row@ =~= before@.insert(columns@[i as int]@, value@));
        i += 1;
    }
    row
}

/// Every column has its value in the row, that of the last column with its name; nothing else is
/// in it.
pub proof fn law_row_has_its_columns(
    columns: Seq<Seq<char>>,
    cells: Seq<CellModel>,
    n: nat,
    name: Seq<char>,
)
    requires
        n <= columns.len(),
    ensures
        row_of(columns, cells, n).dom().contains(name) <==> exists|i: int|
            0 <= i < n && columns[i] == name,
        forall|i: int|
            0 <= i < n && (#[trigger] columns[i]) == name && (forall|j: int|
                i < j < n ==> columns[j] != name) ==> row_of(columns, cells, n)[name] == json_of(
                cell_of(cells, i),
            ),
    decreases n,
{
    if n > 0 {
        law_row_has_its_columns(columns, cells, (n - 1) as nat, name);
        if columns[n - 1] == name {
            assert(0 <= n - 1 < n && columns[n - 1] == name);
        } else {
            assert forall|i: int| 0 <= i < n && columns[i] == name implies 0 <= i < n - 1 by {}
        }
    }
}

/// What the rows hold.
pub open spec fn row_models(rows: Seq<Row>) -> Seq<Map<Seq<char>, ValueModel>> {
    rows.map_values(|r: Row| r@)
}

/// The models of the rows that were read.
pub open spec fn read_models(read: Seq<Option<Vec<Cell>>>) -> Seq<Option<Seq<CellModel>>> {
    read.map_values(
        |r: Option<Vec<Cell>>|
            match r {
                Some(cells) => Some(cell_models(cells@)),
                None => None,
            },
    )
}

/// The rows of the first `n` reads. A row that could not be read is left out.
pub open spec fn rows_of(
    columns: Seq<Seq<char>>,
    read: Seq<Option<Seq<CellModel>>>,
    n: nat,
) -> Seq<Map<Seq<char>, ValueModel>>
    decreases n,
{
    if n == 0 {
        Seq::empty()
    } else {
        let before = rows_of(columns, read, (n - 1) as nat);
        match read[n - 1] {
            Some(cells) => before.push(row_of(columns, cells, columns.len())),
            None => before,
        }
    }
}

fn make_rows(columns: &Vec<String>, read: &Vec<Option<Vec<Cell>>>) -> (r: Vec<Row>)
    ensures
        row_models(r@) == rows_of(texts(columns@), read_models(read@), read@.len()),
{
    let mut rows: Vec<Row> = Vec::new();
    assert(row_models(rows@) =~= Seq::empty());
    let mut i: usize = 0;
    while i < read.len()
        invariant
            i <= read.len(),
            row_models(rows@) == rows_of(texts(columns@), read_models(read@), i as nat),
        decreases read.len() - i,
    {
        let ghost before = rows@;
        if let Some(cells) = &read[i] {
            assert(read_models(read@)[i as int] == Some(cell_models(cells@)));
            let row = make_row(columns.as_slice(), cells.as_slice());
            let ghost model = row@;
            rows.push(row);
            assert(row_models(rows@) =~= row_models(before).push(model));
        } else {
            assert(read_models(read@)[i as int] is None);
        }
        i += 1;
    }
    rows
}

// ---------------------------------------------------------------------------
// The steps of a query
// ---------------------------------------------------------------------------

/// What a query waits for.
#[derive(Debug)]
pub enum QueryStage {
    /// The lock of the database.
    Lock,
    /// A fresh snapshot.
    Refresh,
    /// The snapshot, opened for reading only.
    Open { snapshot: String },
    /// The statements that set the key.
    SetKey { batch: String },
    /// The statement of the query, prepared, with the names of its columns.
    Prepare,
    /// The rows.
    Fetch { columns: Vec<String> },
    /// Nothing: these are the rows, or this is why there are none.
    Done(Result<Vec<Row>, String>),
}

/// What the outside world answers.
#[derive(Debug)]
pub enum QueryEvent {
    Locked(bool),
    Refreshed(Result<String, String>),
    Opened(Result<(), String>),
    KeySet(Result<(), String>),
    Prepared(Result<Vec<String>, String>),
    Rows(Result<Vec<Option<Vec<Cell>>>, String>),
}

/// A query on the snapshot of a database.
#[derive(Debug)]
pub struct HotQuery {
    pub db_name: String,
    pub hex_key: String,
    pub sql: String,
    pub stage: QueryStage,
}

/// What a [`QueryStage`] is.
pub enum Stage {
    Lock,
    Refresh,
    Open { snapshot: Seq<char> },
    SetKey { batch: Seq<char> },
    Prepare,
    Fetch { columns: Seq<Seq<char>> },
    Done(Result<Seq<Map<Seq<char>, ValueModel>>, Seq<char>>),
}

/// What a [`QueryEvent`] says.
pub enum Reply {
    Locked(bool),
    Refreshed(Result<Seq<char>, Seq<char>>),
    Opened(Result<(), Seq<char>>),
    KeySet(Result<(), Seq<char>>),
    Prepared(Result<Seq<Seq<char>>, Seq<char>>),
    Rows(Result<Seq<Option<Seq<CellModel>>>, Seq<char>>),
}

/// What a [`HotQuery`] holds.
pub struct Query {
    pub db_name: Seq<char>,
    pub hex_key: Seq<char>,
    pub sql: Seq<char>,
    pub stage: Stage,
}

impl View for QueryStage {
    type V = Stage;

    open spec fn view(&self) -> Stage {
        match *self {
            QueryStage::Lock => Stage::Lock,
            QueryStage::Refresh => Stage::Refresh,
            QueryStage::Open { snapshot } => Stage::Open { snapshot: snapshot@ },
            QueryStage::SetKey { batch } => Stage::SetKey { batch: batch@ },
            QueryStage::Prepare => Stage::Prepare,
            QueryStage::Fetch { columns } => Stage::Fetch { columns: texts(columns@) },
            QueryStage::Done(r) => Stage::Done(
                match r {
                    Ok(rows) => Ok(row_models(rows@)),
                    Err(e) => Err(e@),
                },
            ),
        }
    }
}

impl View for QueryEvent {
    type V = Reply;

    open spec fn view(&self) -> Reply {
        match *self {
            QueryEvent::Locked(b) => Reply::Locked(b),
            QueryEvent::Refreshed(r) => Reply::Refreshed(
                match r {
                    Ok(path) => Ok(path@),
                    Err(e) => Err(e@),
                },
            ),
            QueryEvent::Opened(r) => Reply::Opened(told(r)),
            QueryEvent::KeySet(r) => Reply::KeySet(told(r)),
            QueryEvent::Prepared(r) => Reply::Prepared(
                match r {
                    Ok(columns) => Ok(texts(columns@)),
                    Err(e) => Err(e@),
                },
            ),
            QueryEvent::Rows(r) => Reply::Rows(
                match r {
                    Ok(read) => Ok(read_models(read@)),
                    Err(e) => Err(e@),
                },
            ),
        }
    }
}

impl View for HotQuery {
    type V = Query;

    open spec fn view(&self) -> Query {
        Query {
            db_name: self.db_name@,
            hex_key: self.hex_key@,
            sql: self.sql@,
            stage: self.stage@,
        }
    }
}

/// The statements that set the key of a database.
pub open spec fn key_batch(hex_key: Seq<char>) -> Seq<char> {
    "PRAGMA key = \"x'"@ + hex_key + "'\"; PRAGMA cipher_compatibility = 4;"@
}

/// A failed step of a query.
pub open spec fn failed(step: Seq<char>, subject: Seq<char>, error: Seq<char>) -> Stage {
    Stage::Done(Err(step + subject + ": "@ + error))
}

/// What a query waits for after an answer: the snapshot is refreshed and read with the lock of the
/// database held. An answer that the query does not wait for changes nothing.
pub open spec fn queried(q: Query, reply: Reply) -> Stage {
    match (q.stage, reply) {
        (Stage::Lock, Reply::Locked(locked)) => if locked {
            Stage::Refresh
        } else {
            Stage::Done(Err("DB lock poisoned"@))
        },
        (Stage::Refresh, Reply::Refreshed(r)) => match r {
            Ok(snapshot) => Stage::Open { snapshot },
            Err(e) => Stage::Done(Err(e)),
        },
        (Stage::Open { snapshot }, Reply::Opened(r)) => match r {
            Ok(_) => Stage::SetKey { batch: key_batch(q.hex_key) },
            Err(e) => failed("Failed to open snapshot "@, snapshot, e),
        },
        (Stage::SetKey { .. }, Reply::KeySet(r)) => match r {
            Ok(_) => Stage::Prepare,
            Err(e) => failed("PRAGMA key failed for "@, q.db_name, e),
        },
        (Stage::Prepare, Reply::Prepared(r)) => match r {
            Ok(columns) => Stage::Fetch { columns },
            Err(e) => failed("Prepare failed for "@, q.db_name, e),
        },
        (Stage::Fetch { columns }, Reply::Rows(r)) => match r {
            Ok(read) => Stage::Done(Ok(rows_of(columns, read, read.len()))),
            Err(e) => failed("Query failed for "@, q.db_name, e),
        },
        _ => q.stage,
    }
}

/// Begins a query on the snapshot of a database.
pub fn query_hot_wechat_db(db_name: String, hex_key: String, sql: String) -> (r: HotQuery)
    ensures
        r@ == (Query { db_name: db_name@, hex_key: hex_key@, sql: sql@, stage: Stage::Lock }),
{
    HotQuery { db_name, hex_key, sql, stage: QueryStage::Lock }
}

fn fail(step: &str, subject: &str, error: &str) -> (r: QueryStage)
    ensures
        r@ == failed(step@, subject@, error@),
{
    let mut message = step.to_owned();
    message.append(subject);
    message.append(": ");
    message.append(error);
    QueryStage::Done(Err(message))
}

impl HotQuery {
    /// Takes in an answer.
    pub fn resume(self, event: QueryEvent) -> (r: HotQuery)
        ensures
            r@ == (Query { stage: queried(self@, event@), ..self@ }),
    {
        let HotQuery { db_name, hex_key, sql, stage } = self;
        let stage = match (stage, event) {
            (QueryStage::Lock, QueryEvent::Locked(locked)) => if locked {
                QueryStage::Refresh
            } else {
                QueryStage::Done(Err("DB lock poisoned".to_owned()))
            },
            (QueryStage::Refresh, QueryEvent::Refreshed(r)) => match r {
                Ok(snapshot) => QueryStage::Open { snapshot },
                Err(e) => QueryStage::Done(Err(e)),
            },
            (QueryStage::Open { snapshot }, QueryEvent::Opened(r)) => match r {
                Ok(_) => {
                    let mut batch = "PRAGMA key = \"x'".to_owned();
                    batch.append(hex_key.as_str());
                    batch.append("'\"; PRAGMA cipher_compatibility = 4;");
                    QueryStage::SetKey { batch }
                },
                Err(e) => fail("Failed to open snapshot ", snapshot.as_str(), e.as_str()),
            },
            (QueryStage::SetKey { .. }, QueryEvent::KeySet(r)) => match r {
                Ok(_) => QueryStage::Prepare,
                Err(e) => fail("PRAGMA key failed for ", db_name.as_str(), e.as_str()),
            },
            (QueryStage::Prepare, QueryEvent::Prepared(r)) => match r {
                Ok(columns) => QueryStage::Fetch { columns },
                Err(e) => fail("Prepare failed for ", db_name.as_str(), e.as_str()),
            },
            (QueryStage::Fetch { columns }, QueryEvent::Rows(r)) => match r {
                Ok(read) => QueryStage::Done(Ok(make_rows(&columns, &read))),
                Err(e) => fail("Query failed for ", db_name.as_str(), e.as_str()),
            },
            (stage, _) => stage,
        };
        HotQuery { db_name, hex_key, sql, stage }
    }
}

/// Where every row can be read, there is one row for each, in their order.
pub proof fn law_rows_keep_their_order(
    columns: Seq<Seq<char>>,
    read: Seq<Option<Seq<CellModel>>>,
    n: nat,
)
    requires
        n <= read.len(),
        forall|i: int| 0 <= i < n ==> (#[trigger] read[i]) is Some,
    ensures
        rows_of(columns, read, n).len() == n,
        forall|i: int|
            0 <= i < n ==> #[trigger] rows_of(columns, read, n)[i] == row_of(
                columns,
                read[i]->Some_0,
                columns.len(),
            ),
    decreases n,
{
    if n > 0 {
        assert(read[n - 1] is Some);
        law_rows_keep_their_order(columns, read, (n - 1) as nat);
    }
}

/// A row that cannot be read leaves no trace: the rows are those of the others.
pub proof fn law_unreadable_rows_are_left_out(
    columns: Seq<Seq<char>>,
    read: Seq<Option<Seq<CellModel>>>,
    k: int,
    n: nat,
)
    requires
        0 <= k < n <= read.len(),
        read[k] is None,
    ensures
        rows_of(columns, read, n) == rows_of(columns, read.remove(k), (n - 1) as nat),
    decreases n,
{
    let rest = read.remove(k);
    if k == n - 1 {
        lemma_rows_of_prefix(columns, read, rest, (n - 1) as nat);
    } else {
        law_unreadable_rows_are_left_out(columns, read, k, (n - 1) as nat);
        assert(rest[n - 2] == read[n - 1]);
    }
}

proof fn lemma_rows_of_prefix(
    columns: Seq<Seq<char>>,
    a: Seq<Option<Seq<CellModel>>>,
    b: Seq<Option<Seq<CellModel>>>,
    n: nat,
)
    requires
        n <= a.len(),
        n <= b.len(),
        forall|i: int| 0 <= i < n ==> a[i] == b[i],
    ensures
        rows_of(columns, a, n) == rows_of(columns, b, n),
    decreases n,
{
    if n > 0 {
        lemma_rows_of_prefix(columns, a, b, (n - 1) as nat);
    }
}

/// A query is read only from a fresh snapshot and under the lock of its database: the steps come
/// in their order, and each only after the one before it has succeeded.
pub proof fn law_query_steps_in_order(q: Query, reply: Reply)
    ensures
        ({
            let next = queried(q, reply);
            let moved = next != q.stage;
            &&& moved && next is Refresh ==> q.stage is Lock && reply == Reply::Locked(true)
            &&& moved && next is Open ==> q.stage is Refresh && reply is Refreshed
                && reply->Refreshed_0 is Ok
            &&& moved && next is SetKey ==> q.stage is Open
            &&& moved && next is Prepare ==> q.stage is SetKey
            &&& moved && next is Fetch ==> q.stage is Prepare
            &&& moved && next is Done && next->Done_0 is Ok ==> q.stage is Fetch
            &&& q.stage is Done ==> !moved
        }),
{
}

/// A query under way: how far it is, how far its refresh is, the cache and the files.
pub struct Undertaking {
    pub query: Query,
    pub job: Job,
    pub cache: Cache,
    pub files: Map<FileRole, int>,
}

/// What happens next: the refresh goes on, with the files left as they are then, or the query gets
/// an answer.
pub enum Move {
    Refresh(Report, Map<FileRole, int>),
    Answer(Reply),
}

/// Whether something may happen: the refresh goes on only while the query waits for it, and leaves
/// the files as a refresh may. All else that a query does reads the snapshot.
pub open spec fn is_allowed(u: Undertaking, m: Move) -> bool {
    match m {
        Move::Refresh(_, after) => u.query.stage is Refresh && may_leave(
            u.job.phase,
            u.files,
            after,
        ),
        Move::Answer(_) => true,
    }
}

/// A query one move further.
pub open spec fn undertaken(u: Undertaking, m: Move) -> Undertaking {
    match m {
        Move::Refresh(report, after) => {
            let (phase, cache) = refreshed(u.job, u.cache, report);
            Undertaking { job: Job { phase, ..u.job }, cache, files: after, ..u }
        },
        Move::Answer(reply) => Undertaking {
            query: Query { stage: queried(u.query, reply), ..u.query },
            ..u
        },
    }
}

/// A query after the first `n` moves.
pub open spec fn undertaken_by(u: Undertaking, moves: Seq<Move>, n: nat) -> Undertaking
    decreases n,
{
    if n == 0 {
        u
    } else {
        undertaken(undertaken_by(u, moves, (n - 1) as nat), moves[n - 1])
    }
}

proof fn lemma_move_leaves_the_source_alone(u: Undertaking, m: Move)
    requires
        is_allowed(u, m),
    ensures
        same_source(u.files, undertaken(u, m).files),
{
    law_refresh_leaves_the_source_alone(u.job.phase, u.files, undertaken(u, m).files);
}

/// Whether each of the moves may happen when its turn comes.
pub open spec fn are_allowed(u: Undertaking, moves: Seq<Move>) -> bool {
    forall|i: nat|
        i < moves.len() ==> is_allowed(#[trigger] undertaken_by(u, moves, i), moves[i as int])
}

/// A query never changes the source: over all its steps, whatever is answered and whatever fails,
/// the database, its live log and the index of that log stay as they were. This is about which files
/// there are and what they hold; their times and locks are the file system's.
pub proof fn law_query_leaves_the_source_alone(u: Undertaking, moves: Seq<Move>, n: nat)
    requires
        n <= moves.len(),
        are_allowed(u, moves),
    ensures
        same_source(u.files, undertaken_by(u, moves, n).files),
    decreases n,
{
    if n > 0 {
        law_query_leaves_the_source_alone(u, moves, (n - 1) as nat);
        lemma_move_leaves_the_source_alone(
            undertaken_by(u, moves, (n - 1) as nat),
            moves[n - 1],
        );
        let before = undertaken_by(u, moves, (n - 1) as nat).files;
        let after = undertaken_by(u, moves, n).files;
        assert forall|role: FileRole| is_source(role) implies #[trigger] same_file(
            u.files,
            after,
            role,
        ) by {
            assert(same_file(u.files, before, role) && same_file(before, after, role));
        }
    }
}

// ---------------------------------------------------------------------------
// Laws: values and steps
// ---------------------------------------------------------------------------

/// Nothing of a cell or a value is lost in what it is taken to hold: two that are taken for the same
/// are of the same kind and hold the same number, text or bytes.
pub proof fn law_values_say_all(a: Cell, b: Cell, x: JsonValue, y: JsonValue)
    ensures
        a@ == b@ ==> {
            &&& a is Null <==> b is Null
            &&& a is Integer <==> b is Integer
            &&& a is Integer ==> a->Integer_0 == b->Integer_0
            &&& a is Real <==> b is Real
            &&& a is Real ==> a->Real_0 == b->Real_0
            &&& a is Text <==> b is Text
            &&& a is Text ==> a->Text_0@ == b->Text_0@
            &&& a is Blob <==> b is Blob
            &&& a is Blob ==> a->Blob_0@ == b->Blob_0@
        },
        x@ == y@ ==> {
            &&& x is Null <==> y is Null
            &&& x is Integer <==> y is Integer
            &&& x is Integer ==> x->Integer_0 == y->Integer_0
            &&& x is Real <==> y is Real
            &&& x is Real ==> x->Real_0 == y->Real_0
            &&& x is Text <==> y is Text
            &&& x is Text ==> x->Text_0@ == y->Text_0@
        },
{
}

/// Every integer is handed out as it is, so cells with different integers are handed out as
/// different values.
pub proof fn law_integers_are_kept(n: i64, m: i64)
    ensures
        json_of(Cell::Integer(n)@) == JsonValue::Integer(n)@,
        json_of(Cell::Integer(n)@) == json_of(Cell::Integer(m)@) <==> n == m,
{
}

/// Every real number is handed out bit for bit; what is no number, infinite or undefined, is handed
/// out as nothing. The bits that tell it are the eleven of the exponent, all of them set.
pub proof fn law_numbers_are_kept(bits: u64)
    ensures
        (bits >> 52) & 0x7ff != 0x7ff ==> json_of(Cell::Real(bits)@) == JsonValue::Real(bits)@,
        (bits >> 52) & 0x7ff == 0x7ff ==> json_of(Cell::Real(bits)@) == JsonValue::Null@,
{
    assert(((bits >> 52) & 0x7ff) == (bits / 0x10_0000_0000_0000) % 0x800) by (bit_vector);
}

/// Text that is well encoded is handed out as what its bytes encode: encoded again it gives the same
/// bytes. Of other text the bytes alone decide.
pub proof fn law_text_is_kept(bytes: Seq<u8>)
    ensures
        json_of(CellModel::Text(bytes)) is Text,
        valid_utf8(bytes) ==> encode_utf8(json_of(CellModel::Text(bytes))->Text_0) == bytes,
        !valid_utf8(bytes) ==> json_of(CellModel::Text(bytes))->Text_0 == lossy_utf8(bytes),
{
    if valid_utf8(bytes) {
        decode_utf8_encode_utf8(bytes);
    }
}

/// Bytes are handed out as hexadecimal text, two digits for each, from which they can be read back.
pub proof fn law_bytes_are_kept(bytes: Seq<u8>, i: int)
    ensures
        json_of(CellModel::Blob(bytes)) is Text,
        json_of(CellModel::Blob(bytes))->Text_0.len() == 2 * bytes.len(),
        0 <= i < bytes.len() ==> ({
            let text = json_of(CellModel::Blob(bytes))->Text_0;
            &&& 16 * hex_value(text[2 * i]) + hex_value(text[2 * i + 1]) == bytes[i]
            &&& '0' <= text[2 * i] <= '9' || 'A' <= text[2 * i] <= 'F'
            &&& '0' <= text[2 * i + 1] <= '9' || 'A' <= text[2 * i + 1] <= 'F'
        }),
{
    law_hexadecimal(bytes, i);
}

/// What is null or cannot be read is handed out as nothing, and nothing else is but what is no
/// number.
pub proof fn law_nothing_comes_of_nothing(cell: CellModel)
    ensures
        cell is Null || cell is Unreadable ==> json_of(cell) is Null,
        json_of(cell) is Null ==> cell is Null || cell is Unreadable || cell is Real,
{
}

/// Where the columns have different names, each has its cell in the row, and nothing where the row
/// was read without one.
pub proof fn law_row_keeps_its_cells(columns: Seq<Seq<char>>, cells: Seq<CellModel>, i: int)
    requires
        0 <= i < columns.len(),
        forall|j: int, k: int| 0 <= j < k < columns.len() ==> columns[j] != columns[k],
    ensures
        row_of(columns, cells, columns.len()).dom().contains(columns[i]),
        i < cells.len() ==> row_of(columns, cells, columns.len())[columns[i]] == json_of(cells[i]),
        i >= cells.len() ==> row_of(columns, cells, columns.len())[columns[i]] is Null,
{
    law_row_has_its_columns(columns, cells, columns.len(), columns[i]);
}

/// A row holds its values as they were put in.
pub proof fn law_rows_say_all(row: Row, name: Seq<char>)
    ensures
        row@.dom().contains(name) <==> row.values@.dom().contains(name),
        row.values@.dom().contains(name) ==> row@[name] == row.values@[name]@,
{
}

/// The models of what was read are theirs, one for one.
pub proof fn law_reads_say_all(read: Seq<Option<Vec<Cell>>>, rows: Seq<Row>, i: int, j: int)
    ensures
        read_models(read).len() == read.len(),
        0 <= i < read.len() ==> (read_models(read)[i] is Some <==> read[i] is Some),
        0 <= i < read.len() && read[i] is Some ==> {
            let (model, cells) = (read_models(read)[i]->Some_0, read[i]->Some_0@);
            &&& model.len() == cells.len()
            &&& 0 <= j < cells.len() ==> model[j] == cells[j]@
        },
        row_models(rows).len() == rows.len(),
        0 <= i < rows.len() ==> row_models(rows)[i] == rows[i]@,
{
}

/// Nothing of a query or an answer is lost in what it is taken for.
pub proof fn law_stages_say_all(q: HotQuery, event: QueryEvent)
    ensures
        q@.db_name == q.db_name@,
        q@.hex_key == q.hex_key@,
        q@.sql == q.sql@,
        q.stage is Lock <==> q@.stage is Lock,
        q.stage is Refresh <==> q@.stage is Refresh,
        q.stage is Open ==> q@.stage == (Stage::Open { snapshot: q.stage->snapshot@ }),
        q.stage is SetKey ==> q@.stage == (Stage::SetKey { batch: q.stage->batch@ }),
        q.stage is Prepare <==> q@.stage is Prepare,
        q.stage is Fetch ==> q@.stage == (Stage::Fetch { columns: texts(q.stage->columns@) }),
        q.stage is Done ==> q@.stage is Done && (q.stage->Done_0 is Ok <==> q@.stage->Done_0 is Ok),
        q.stage is Done && q.stage->Done_0 is Ok ==> q@.stage->Done_0->Ok_0 == row_models(
            q.stage->Done_0->Ok_0@,
        ),
        q.stage is Done && q.stage->Done_0 is Err ==> q@.stage->Done_0->Err_0
            == q.stage->Done_0->Err_0@,
        event is Locked ==> event@ == Reply::Locked(event->Locked_0),
        event is Refreshed && event->Refreshed_0 is Ok ==> event@ == Reply::Refreshed(
            Ok(event->Refreshed_0->Ok_0@),
        ),
        event is Refreshed && event->Refreshed_0 is Err ==> event@ == Reply::Refreshed(
            Err(event->Refreshed_0->Err_0@),
        ),
        event is Opened && event->Opened_0 is Ok ==> event@ == Reply::Opened(Ok(())),
        event is Opened && event->Opened_0 is Err ==> event@ == Reply::Opened(
            Err(event->Opened_0->Err_0@),
        ),
        event is KeySet && event->KeySet_0 is Ok ==> event@ == Reply::KeySet(Ok(())),
        event is KeySet && event->KeySet_0 is Err ==> event@ == Reply::KeySet(
            Err(event->KeySet_0->Err_0@),
        ),
        event is Prepared && event->Prepared_0 is Ok ==> event@ == Reply::Prepared(
            Ok(texts(event->Prepared_0->Ok_0@)),
        ),
        event is Prepared && event->Prepared_0 is Err ==> event@ == Reply::Prepared(
            Err(event->Prepared_0->Err_0@),
        ),
        event is Rows && event->Rows_0 is Err ==> event@ == Reply::Rows(
            Err(event->Rows_0->Err_0@),
        ),
        event is Rows && event->Rows_0 is Ok ==> event@ == Reply::Rows(
            Ok(read_models(event->Rows_0->Ok_0@)),
        ),
{
}

/// Where everything succeeds, a query takes the lock, has the snapshot refreshed, opens that very
/// snapshot, sets the key that it was given, prepares, fetches with the columns that were found, and
/// hands out a row for each that could be read.
pub proof fn law_query_succeeds(
    q: Query,
    path: Seq<char>,
    columns: Seq<Seq<char>>,
    read: Seq<Option<Seq<CellModel>>>,
)
    ensures
        q.stage is Lock ==> queried(q, Reply::Locked(true)) is Refresh,
        q.stage is Refresh ==> queried(q, Reply::Refreshed(Ok(path))) == (Stage::Open {
            snapshot: path,
        }),
        q.stage is Open ==> queried(q, Reply::Opened(Ok(()))) == (Stage::SetKey {
            batch: "PRAGMA key = \"x'"@ + q.hex_key + "'\"; PRAGMA cipher_compatibility = 4;"@,
        }),
        q.stage is SetKey ==> queried(q, Reply::KeySet(Ok(()))) is Prepare,
        q.stage is Prepare ==> queried(q, Reply::Prepared(Ok(columns))) == (Stage::Fetch {
            columns,
        }),
        q.stage is Fetch ==> ({
            let done = queried(q, Reply::Rows(Ok(read)));
            &&& done is Done
            &&& done->Done_0 is Ok
            &&& done->Done_0->Ok_0.len() == read.filter(
                |r: Option<Seq<CellModel>>| r is Some,
            ).len()
            &&& forall|k: int|
                0 <= k < done->Done_0->Ok_0.len() ==> #[trigger] done->Done_0->Ok_0[k] == row_of(
                    q.stage->columns,
                    read.filter(|r: Option<Seq<CellModel>>| r is Some)[k]->Some_0,
                    q.stage->columns.len(),
                )
        }),
{
    if q.stage is Fetch {
        lemma_rows_are_those_read(q.stage->columns, read, read.len());
        assert(read.take(read.len() as int) =~= read);
    }
}

proof fn lemma_rows_are_those_read(
    columns: Seq<Seq<char>>,
    read: Seq<Option<Seq<CellModel>>>,
    n: nat,
)
    requires
        n <= read.len(),
    ensures
        ({
            let kept = read.take(n as int).filter(|r: Option<Seq<CellModel>>| r is Some);
            &&& rows_of(columns, read, n).len() == kept.len()
            &&& forall|k: int|
                0 <= k < kept.len() ==> #[trigger] rows_of(columns, read, n)[k] == row_of(
                    columns,
                    kept[k]->Some_0,
                    columns.len(),
                )
        }),
    decreases n,
{
    reveal(Seq::filter);
    if n > 0 {
        lemma_rows_are_those_read(columns, read, (n - 1) as nat);
        assert(read.take(n as int).drop_last() =~= read.take(n - 1));
        assert(read.take(n as int).last() == read[n - 1]);
    }
}

/// A step that fails ends the query, and the reason tells which step it was, of which database, and
/// what went wrong.
pub proof fn law_query_fails(q: Query, e: Seq<char>)
    ensures
        q.stage is Lock ==> queried(q, Reply::Locked(false)) == Stage::Done(
            Err("DB lock poisoned"@),
        ),
        q.stage is Refresh ==> queried(q, Reply::Refreshed(Err(e))) == Stage::Done(Err(e)),
        q.stage is Open ==> queried(q, Reply::Opened(Err(e))) == Stage::Done(
            Err("Failed to open snapshot "@ + q.stage->snapshot + ": "@ + e),
        ),
        q.stage is SetKey ==> queried(q, Reply::KeySet(Err(e))) == Stage::Done(
            Err("PRAGMA key failed for "@ + q.db_name + ": "@ + e),
        ),
        q.stage is Prepare ==> queried(q, Reply::Prepared(Err(e))) == Stage::Done(
            Err("Prepare failed for "@ + q.db_name + ": "@ + e),
        ),
        q.stage is Fetch ==> queried(q, Reply::Rows(Err(e))) == Stage::Done(
            Err("Query failed for "@ + q.db_name + ": "@ + e),
        ),
{
}

/// An answer that a query does not wait for changes nothing.
pub proof fn law_unasked_answers_change_nothing(q: Query, reply: Reply)
    requires
        !(q.stage is Lock && reply is Locked),
        !(q.stage is Refresh && reply is Refreshed),
        !(q.stage is Open && reply is Opened),
        !(q.stage is SetKey && reply is KeySet),
        !(q.stage is Prepare && reply is Prepared),
        !(q.stage is Fetch && reply is Rows),
    ensures
        queried(q, reply) == q.stage,
{
}

/// The models of cells are theirs, one for one.
pub proof fn law_cell_models(cells: Seq<Cell>, i: int)
    ensures
        cell_models(cells).len() == cells.len(),
        0 <= i < cells.len() ==> cell_models(cells)[i] == cells[i]@,
{
}

/// Of columns with the same name the last one has its cell in the row.
pub proof fn law_last_column_counts(columns: Seq<Seq<char>>, cells: Seq<CellModel>, i: int)
    requires
        0 <= i < columns.len(),
        forall|j: int| i < j < columns.len() ==> columns[j] != columns[i],
    ensures
        row_of(columns, cells, columns.len()).dom().contains(columns[i]),
        i < cells.len() ==> row_of(columns, cells, columns.len())[columns[i]] == json_of(cells[i]),
        i >= cells.len() ==> row_of(columns, cells, columns.len())[columns[i]] is Null,
{
    law_row_has_its_columns(columns, cells, columns.len(), columns[i]);
}

} // verus!
