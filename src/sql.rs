//! The durable row format: table layout, the statements that each mutation
//! becomes, and the scan that reads a dataset back.

use vstd::prelude::*;
use crate::identity::DatasetKind;
use crate::ip::{ip_bytes, ip_to_vec8};
use crate::model::{Entry, Key, KeyView, Update, Value, ValueView, texts_view};

verus! {

/// One column value of a row or one statement parameter.
#[derive(Clone, Debug)]
pub enum Cell {
    Null,
    Int(i64),
    Text(String),
    Blob(Vec<u8>),
    /// A value of a type that no dataset column holds.
    Other,
}

/// Model of a cell.
pub enum CellView {
    Null,
    Int(i64),
    Text(Seq<char>),
    Blob(Seq<u8>),
    Other,
}

impl View for Cell {
    type V = CellView;

    open spec fn view(&self) -> CellView {
        match self {
            Cell::Null => CellView::Null,
            Cell::Int(v) => CellView::Int(*v),
            Cell::Text(s) => CellView::Text(s@),
            Cell::Blob(b) => CellView::Blob(b@),
            Cell::Other => CellView::Other,
        }
    }
}

/// The models of a sequence of cells.
pub open spec fn cells_view(v: Seq<Cell>) -> Seq<CellView> {
    v.map_values(|c: Cell| c@)
}

/// One SQL statement with its positional parameters.
#[derive(Clone, Debug)]
pub struct Statement {
    pub sql: String,
    pub params: Vec<Cell>,
}

impl View for Statement {
    type V = (Seq<char>, Seq<CellView>);

    open spec fn view(&self) -> (Seq<char>, Seq<CellView>) {
        (self.sql@, cells_view(self.params@))
    }
}

/// The models of a sequence of statements.
pub open spec fn statements_view(v: Seq<Statement>) -> Seq<(Seq<char>, Seq<CellView>)> {
    v.map_values(|s: Statement| s@)
}

/// Whether values of the kind are lists, kept in a second table.
pub open spec fn is_list_kind(kind: DatasetKind) -> bool {
    kind is TextMapList || kind is IpMapList
}

/// Whether keys of the kind are networks.
pub open spec fn is_net_kind(kind: DatasetKind) -> bool {
    kind is IpNet || kind is GeoIp
}

/// The statements that create a dataset's tables, if they do not exist.
pub open spec fn schema_sql(kind: DatasetKind, t: Seq<char>) -> Seq<Seq<char>> {
    let head = "CREATE TABLE IF NOT EXISTS dataset_"@ + t;
    match kind {
        DatasetKind::TextSet => seq![
            head
                + " (id INTEGER PRIMARY KEY AUTOINCREMENT, data_key TEXT NOT NULL UNIQUE)"@,
        ],
        DatasetKind::TextMap => seq![
            head
                + " (id INTEGER PRIMARY KEY AUTOINCREMENT, data_key TEXT NOT NULL UNIQUE, data_val TEXT NOT NULL)"@,
        ],
        DatasetKind::TextMapList => seq![
            head
                + " (id INTEGER PRIMARY KEY AUTOINCREMENT, data_key TEXT NOT NULL UNIQUE)"@,
            list_schema_sql(t),
        ],
        DatasetKind::IpSet => seq![
            head
                + " (id INTEGER PRIMARY KEY AUTOINCREMENT, data_key BLOB NOT NULL UNIQUE)"@,
        ],
        DatasetKind::IpMap => seq![
            head
                + " (id INTEGER PRIMARY KEY AUTOINCREMENT, data_key BLOB NOT NULL UNIQUE, data_val TEXT NOT NULL)"@,
        ],
        DatasetKind::IpMapList => seq![
            head
                + " (id INTEGER PRIMARY KEY AUTOINCREMENT, data_key BLOB NOT NULL UNIQUE)"@,
            list_schema_sql(t),
        ],
        DatasetKind::IpNet => seq![
            head
                + " (id INTEGER PRIMARY KEY AUTOINCREMENT, data_key BLOB NOT NULL, network INTEGER NOT NULL, data_val TEXT NOT NULL, UNIQUE (data_key, network))"@,
        ],
        DatasetKind::GeoIp => seq![
            head
                + " (id INTEGER PRIMARY KEY AUTOINCREMENT, data_key BLOB NOT NULL, network INTEGER NOT NULL, country TEXT NOT NULL, city TEXT NOT NULL, latitude INTEGER NOT NULL, longitude INTEGER NOT NULL, isp TEXT NOT NULL, UNIQUE (data_key, network))"@,
        ],
    }
}

/// The statement that creates the table of list items.
pub open spec fn list_schema_sql(t: Seq<char>) -> Seq<char> {
    "CREATE TABLE IF NOT EXISTS dataset_list_"@ + t
        + " (id INTEGER PRIMARY KEY AUTOINCREMENT, parent INTEGER NOT NULL, data_val TEXT NOT NULL)"@
}

/// The statement that inserts one key row (with its value where it is not a list).
pub open spec fn insert_sql(kind: DatasetKind, t: Seq<char>) -> Seq<char> {
    let head = "INSERT INTO dataset_"@ + t;
    match kind {
        DatasetKind::TextSet | DatasetKind::IpSet | DatasetKind::TextMapList
        | DatasetKind::IpMapList => head + " (data_key) VALUES (?1)"@,
        DatasetKind::TextMap | DatasetKind::IpMap => head
            + " (data_key, data_val) VALUES (?1, ?2)"@,
        DatasetKind::IpNet => head + " (data_key, network, data_val) VALUES (?1, ?2, ?3)"@,
        DatasetKind::GeoIp => head
            + " (data_key, network, country, city, latitude, longitude, isp) VALUES (?1, ?2, ?3, ?4, ?5, ?6, ?7)"@,
    }
}

/// The statement that inserts one list item under the key row whose key is `?1`.
pub open spec fn insert_item_sql(t: Seq<char>) -> Seq<char> {
    "INSERT INTO dataset_list_"@ + t + " (parent, data_val) VALUES ((SELECT id FROM dataset_"@
        + t + " WHERE data_key = ?1), ?2)"@
}

/// The statement that deletes the key row whose key is given.
pub open spec fn delete_sql(kind: DatasetKind, t: Seq<char>) -> Seq<char> {
    if is_net_kind(kind) {
        "DELETE FROM dataset_"@ + t + " WHERE data_key = ?1 AND network = ?2"@
    } else {
        "DELETE FROM dataset_"@ + t + " WHERE data_key = ?1"@
    }
}

/// The statement that deletes the list items of the key row whose key is `?1`.
pub open spec fn delete_items_sql(t: Seq<char>) -> Seq<char> {
    "DELETE FROM dataset_list_"@ + t + " WHERE parent IN (SELECT id FROM dataset_"@ + t
        + " WHERE data_key = ?1)"@
}

/// The statement that deletes every key row.
pub open spec fn clear_sql(t: Seq<char>) -> Seq<char> {
    "DELETE FROM dataset_"@ + t
}

/// The statement that deletes every list item.
pub open spec fn clear_items_sql(t: Seq<char>) -> Seq<char> {
    "DELETE FROM dataset_list_"@ + t
}

/// The query that reads a whole dataset, by key (list items in insertion order).
pub open spec fn scan_sql(kind: DatasetKind, t: Seq<char>) -> Seq<char> {
    match kind {
        DatasetKind::TextSet | DatasetKind::IpSet => "SELECT data_key FROM dataset_"@ + t
            + " ORDER BY data_key"@,
        DatasetKind::TextMap | DatasetKind::IpMap => "SELECT data_key, data_val FROM dataset_"@
            + t + " ORDER BY data_key"@,
        DatasetKind::TextMapList | DatasetKind::IpMapList =>
            "SELECT t1.data_key, t2.data_val FROM dataset_"@ + t + " AS t1 LEFT JOIN dataset_list_"@
            + t + " AS t2 ON t2.parent = t1.id ORDER BY t1.data_key, t2.id"@,
        DatasetKind::IpNet => "SELECT data_key, network, data_val FROM dataset_"@ + t
            + " ORDER BY data_key, network"@,
        DatasetKind::GeoIp =>
            "SELECT data_key, network, country, city, latitude, longitude, isp FROM dataset_"@ + t
            + " ORDER BY data_key, network"@,
    }
}

/// The parameters that identify a key.
pub open spec fn key_cells(k: KeyView) -> Seq<CellView> {
    match k {
        KeyView::Text(s) => seq![CellView::Text(s)],
        KeyView::Ip(ip) => seq![CellView::Blob(ip_bytes(ip))],
        KeyView::Net(ip, p) => seq![CellView::Blob(ip_bytes(ip)), CellView::Int(p as i64)],
    }
}

/// The parameters that hold a value that is not a list.
pub open spec fn value_cells(v: ValueView) -> Seq<CellView> {
    match v {
        ValueView::Text(s) => seq![CellView::Text(s)],
        ValueView::Geo(g) => seq![
            CellView::Text(g.country),
            CellView::Text(g.city),
            CellView::Int(g.latitude as i64),
            CellView::Int(g.longitude as i64),
            CellView::Text(g.isp),
        ],
        _ => Seq::empty(),
    }
}

/// The statements that add one entry.
pub open spec fn add_plan(kind: DatasetKind, t: Seq<char>, k: KeyView, v: ValueView) -> Seq<
    (Seq<char>, Seq<CellView>),
> {
    if is_list_kind(kind) {
        let items = match v {
            ValueView::List(items) => items,
            _ => Seq::empty(),
        };
        seq![(insert_sql(kind, t), key_cells(k))] + items_plan(t, k, items)
    } else {
        seq![(insert_sql(kind, t), key_cells(k) + value_cells(v))]
    }
}

/// The statements that insert each list item under the key row of `k`.
pub open spec fn items_plan(t: Seq<char>, k: KeyView, items: Seq<Seq<char>>) -> Seq<
    (Seq<char>, Seq<CellView>),
> {
    Seq::new(
        items.len(),
        |i: int| (insert_item_sql(t), key_cells(k) + seq![CellView::Text(items[i])]),
    )
}

/// The statements that remove one key.
pub open spec fn remove_plan(kind: DatasetKind, t: Seq<char>, k: KeyView) -> Seq<
    (Seq<char>, Seq<CellView>),
> {
    if is_list_kind(kind) {
        seq![(delete_items_sql(t), key_cells(k)), (delete_sql(kind, t), key_cells(k))]
    } else {
        seq![(delete_sql(kind, t), key_cells(k))]
    }
}

/// The statements that empty a dataset.
pub open spec fn clear_plan(kind: DatasetKind, t: Seq<char>) -> Seq<(Seq<char>, Seq<CellView>)> {
    if is_list_kind(kind) {
        seq![(clear_items_sql(t), Seq::empty()), (clear_sql(t), Seq::empty())]
    } else {
        seq![(clear_sql(t), Seq::empty())]
    }
}

/// The statements that add each entry of `es`, in order.
pub open spec fn add_all_plan(kind: DatasetKind, t: Seq<char>, es: Seq<Entry>) -> Seq<
    (Seq<char>, Seq<CellView>),
>
    decreases es.len(),
{
    if es.len() == 0 {
        Seq::empty()
    } else {
        add_all_plan(kind, t, es.drop_last()) + add_plan(kind, t, es.last().key@, es.last().value@)
    }
}

/// The statements, run in one transaction, that apply a mutation to the table `t`.
pub open spec fn update_plan(kind: DatasetKind, t: Seq<char>, u: Update) -> Seq<
    (Seq<char>, Seq<CellView>),
> {
    match u {
        Update::Add(e) => add_plan(kind, t, e.key@, e.value@),
        Update::Remove(k) => remove_plan(kind, t, k@),
        Update::Replace(es) => clear_plan(kind, t) + add_all_plan(kind, t, es@),
    }
}

/// The statements that apply a mutation as one transaction: `BEGIN`, the statements of
/// `update_plan`, then `COMMIT`.
pub open spec fn transaction_plan(kind: DatasetKind, t: Seq<char>, u: Update) -> Seq<
    (Seq<char>, Seq<CellView>),
> {
    seq![("BEGIN"@, Seq::<CellView>::empty())] + update_plan(kind, t, u) + seq![
        ("COMMIT"@, Seq::<CellView>::empty()),
    ]
}

/// Replacing with no entries runs nothing but the statements that empty the dataset.
pub proof fn lemma_replace_empty_plan(kind: DatasetKind, t: Seq<char>, es: Vec<Entry>)
    requires
        es@.len() == 0,
    ensures
        update_plan(kind, t, Update::Replace(es)) == clear_plan(kind, t),
{
    assert(update_plan(kind, t, Update::Replace(es)) =~= clear_plan(kind, t));
}

fn cat(a: &str, t: &str, b: &str) -> (r: String)
    ensures
        r@ == a@ + t@ + b@,
{
    let mut s = String::from_str(a);
    s.append(t);
    s.append(b);
    s
}

fn prefixed(a: &str, t: &str) -> (r: String)
    ensures
        r@ == a@ + t@,
{
    let mut s = String::from_str(a);
    s.append(t);
    s
}

fn cat2(a: &str, t: &str, b: &str, c: &str) -> (r: String)
    ensures
        r@ == a@ + t@ + b@ + t@ + c@,
{
    let mut s = cat(a, t, b);
    s.append(t);
    s.append(c);
    s
}

/// The statements that create a dataset's tables.
pub fn schema_statements(kind: DatasetKind, t: &str) -> (r: Vec<String>)
    ensures
        r@.map_values(|s: String| s@) == schema_sql(kind, t@),
{
    let head = "CREATE TABLE IF NOT EXISTS dataset_";
    let r = match kind {
        DatasetKind::TextSet => vec![
            cat(
                head,
                t,
                " (id INTEGER PRIMARY KEY AUTOINCREMENT, data_key TEXT NOT NULL UNIQUE)",
            ),
        ],
        DatasetKind::TextMap => vec![
            cat(
                head,
                t,
                " (id INTEGER PRIMARY KEY AUTOINCREMENT, data_key TEXT NOT NULL UNIQUE, data_val TEXT NOT NULL)",
            ),
        ],
        DatasetKind::TextMapList => vec![
            cat(
                head,
                t,
                " (id INTEGER PRIMARY KEY AUTOINCREMENT, data_key TEXT NOT NULL UNIQUE)",
            ),
            list_schema_statement(t),
        ],
        DatasetKind::IpSet => vec![
            cat(
                head,
                t,
                " (id INTEGER PRIMARY KEY AUTOINCREMENT, data_key BLOB NOT NULL UNIQUE)",
            ),
        ],
        DatasetKind::IpMap => vec![
            cat(
                head,
                t,
                " (id INTEGER PRIMARY KEY AUTOINCREMENT, data_key BLOB NOT NULL UNIQUE, data_val TEXT NOT NULL)",
            ),
        ],
        DatasetKind::IpMapList => vec![
            cat(
                head,
                t,
                " (id INTEGER PRIMARY KEY AUTOINCREMENT, data_key BLOB NOT NULL UNIQUE)",
            ),
            list_schema_statement(t),
        ],
        DatasetKind::IpNet => vec![
            cat(
                head,
                t,
                " (id INTEGER PRIMARY KEY AUTOINCREMENT, data_key BLOB NOT NULL, network INTEGER NOT NULL, data_val TEXT NOT NULL, UNIQUE (data_key, network))",
            ),
        ],
        DatasetKind::GeoIp => vec![
            cat(
                head,
                t,
                " (id INTEGER PRIMARY KEY AUTOINCREMENT, data_key BLOB NOT NULL, network INTEGER NOT NULL, country TEXT NOT NULL, city TEXT NOT NULL, latitude INTEGER NOT NULL, longitude INTEGER NOT NULL, isp TEXT NOT NULL, UNIQUE (data_key, network))",
            ),
        ],
    };
    assert(r@.map_values(|s: String| s@) =~= schema_sql(kind, t@));
    r
}

fn list_schema_statement(t: &str) -> (r: String)
    ensures
        r@ == list_schema_sql(t@),
{
    cat(
        "CREATE TABLE IF NOT EXISTS dataset_list_",
        t,
        " (id INTEGER PRIMARY KEY AUTOINCREMENT, parent INTEGER NOT NULL, data_val TEXT NOT NULL)",
    )
}

/// The query that reads a whole dataset.
pub fn scan_statement(kind: DatasetKind, t: &str) -> (r: String)
    ensures
        r@ == scan_sql(kind, t@),
{
    match kind {
        DatasetKind::TextSet | DatasetKind::IpSet => cat(
            "SELECT data_key FROM dataset_",
            t,
            " ORDER BY data_key",
        ),
        DatasetKind::TextMap | DatasetKind::IpMap => cat(
            "SELECT data_key, data_val FROM dataset_",
            t,
            " ORDER BY data_key",
        ),
        DatasetKind::TextMapList | DatasetKind::IpMapList => cat2(
            "SELECT t1.data_key, t2.data_val FROM dataset_",
            t,
            " AS t1 LEFT JOIN dataset_list_",
            " AS t2 ON t2.parent = t1.id ORDER BY t1.data_key, t2.id",
        ),
        DatasetKind::IpNet => cat(
            "SELECT data_key, network, data_val FROM dataset_",
            t,
            " ORDER BY data_key, network",
        ),
        DatasetKind::GeoIp => cat(
            "SELECT data_key, network, country, city, latitude, longitude, isp FROM dataset_",
            t,
            " ORDER BY data_key, network",
        ),
    }
}

fn insert_statement(kind: DatasetKind, t: &str) -> (r: String)
    ensures
        r@ == insert_sql(kind, t@),
{
    let head = "INSERT INTO dataset_";
    match kind {
        DatasetKind::TextSet | DatasetKind::IpSet | DatasetKind::TextMapList
        | DatasetKind::IpMapList => cat(head, t, " (data_key) VALUES (?1)"),
        DatasetKind::TextMap | DatasetKind::IpMap => cat(
            head,
            t,
            " (data_key, data_val) VALUES (?1, ?2)",
        ),
        DatasetKind::IpNet => cat(head, t, " (data_key, network, data_val) VALUES (?1, ?2, ?3)"),
        DatasetKind::GeoIp => cat(
            head,
            t,
            " (data_key, network, country, city, latitude, longitude, isp) VALUES (?1, ?2, ?3, ?4, ?5, ?6, ?7)",
        ),
    }
}

fn delete_statement(kind: DatasetKind, t: &str) -> (r: String)
    ensures
        r@ == delete_sql(kind, t@),
{
    match kind {
        DatasetKind::IpNet | DatasetKind::GeoIp => cat(
            "DELETE FROM dataset_",
            t,
            " WHERE data_key = ?1 AND network = ?2",
        ),
        _ => cat("DELETE FROM dataset_", t, " WHERE data_key = ?1"),
    }
}

fn text_param(s: &String) -> (r: Cell)
    ensures
        r@ == CellView::Text(s@),
{
    Cell::Text(s.clone())
}

/// The parameters that identify a key.
pub fn key_params(k: &Key) -> (r: Vec<Cell>)
    ensures
        cells_view(r@) == key_cells(k@),
{
    let r = match k {
        Key::Text(s) => vec![text_param(s)],
        Key::Ip(ip) => vec![Cell::Blob(ip_to_vec8(ip))],
        Key::Net(ip, p) => vec![Cell::Blob(ip_to_vec8(ip)), Cell::Int(*p as i64)],
    };
    assert(cells_view(r@) =~= key_cells(k@));
    r
}

fn value_params(v: &Value) -> (r: Vec<Cell>)
    ensures
        cells_view(r@) == value_cells(v@),
{
    let r = match v {
        Value::Text(s) => vec![text_param(s)],
        Value::Geo(g) => vec![
            text_param(&g.country),
            text_param(&g.city),
            Cell::Int(g.latitude as i64),
            Cell::Int(g.longitude as i64),
            text_param(&g.isp),
        ],
        _ => Vec::new(),
    };
    assert(cells_view(r@) =~= value_cells(v@));
    r
}

fn append_cells(a: &mut Vec<Cell>, b: Vec<Cell>)
    ensures
        cells_view(final(a)@) == cells_view(old(a)@) + cells_view(b@),
{
    let ghost bv = b@;
    let mut b = b;
    a.append(&mut b);
    assert(cells_view(a@) =~= cells_view(old(a)@) + cells_view(bv));
}

fn add_statements(kind: DatasetKind, t: &str, e: &Entry, out: &mut Vec<Statement>)
    ensures
        statements_view(final(out)@) == statements_view(old(out)@) + add_plan(
            kind,
            t@,
            e.key@,
            e.value@,
        ),
{
    let ghost start = statements_view(out@);
    let mut params = key_params(&e.key);
    match kind {
        DatasetKind::TextMapList | DatasetKind::IpMapList => {
            out.push(Statement { sql: insert_statement(kind, t), params });
            let ghost items: Seq<Seq<char>> = match e.value@ {
                ValueView::List(items) => items,
                _ => Seq::empty(),
            };
            let ghost plan = add_plan(kind, t@, e.key@, e.value@);
            let empty: Vec<String> = Vec::new();
            let list = match &e.value {
                Value::List(v) => v,
                _ => &empty,
            };
            assert(texts_view(list@) == items);
            let item_sql = cat2(
                "INSERT INTO dataset_list_",
                t,
                " (parent, data_val) VALUES ((SELECT id FROM dataset_",
                " WHERE data_key = ?1), ?2)",
            );
            assert(plan == seq![(insert_sql(kind, t@), key_cells(e.key@))] + items_plan(
                t@,
                e.key@,
                items,
            ));
            assert(statements_view(out@) =~= start + plan.subrange(0, 1));
            let mut i: usize = 0;
            while i < list.len()
                invariant
                    i <= list@.len() == items.len(),
                    texts_view(list@) == items,
                    item_sql@ == insert_item_sql(t@),
                    plan == seq![(insert_sql(kind, t@), key_cells(e.key@))] + items_plan(
                        t@,
                        e.key@,
                        items,
                    ),
                    statements_view(out@) == start + plan.subrange(0, i + 1),
                decreases list@.len() - i,
            {
                let mut ps = key_params(&e.key);
                ps.push(text_param(&list[i]));
                proof {
                    assert(cells_view(ps@) =~= key_cells(e.key@) + seq![CellView::Text(items[i as int])]);
                    let head = seq![(insert_sql(kind, t@), key_cells(e.key@))];
                    let tail = items_plan(t@, e.key@, items);
                    assert(plan == head + tail);
                    assert(plan[i + 1] == tail[i as int]);
                }
                let st = Statement { sql: item_sql.clone(), params: ps };
                assert(st@ == plan[i + 1]);
                let ghost before = out@;
                out.push(st);
                proof {
                    assert(statements_view(out@) =~= statements_view(before).push(plan[i + 1]));
                    assert(plan.subrange(0, i + 2) =~= plan.subrange(0, i + 1).push(plan[i + 1]));
                    assert(statements_view(out@) =~= start + plan.subrange(0, i + 2));
                }
                i = i + 1;
            }
            assert(plan.subrange(0, i + 1) =~= plan);
        },
        _ => {
            append_cells(&mut params, value_params(&e.value));
            out.push(Statement { sql: insert_statement(kind, t), params });
            assert(statements_view(out@) =~= start + add_plan(kind, t@, e.key@, e.value@));
        },
    }
}

fn clear_statements(kind: DatasetKind, t: &str) -> (r: Vec<Statement>)
    ensures
        statements_view(r@) == clear_plan(kind, t@),
{
    let main = Statement { sql: prefixed("DELETE FROM dataset_", t), params: Vec::new() };
    assert(main@ == (clear_sql(t@), Seq::<CellView>::empty()));
    match kind {
        DatasetKind::TextMapList | DatasetKind::IpMapList => {
            let items = Statement {
                sql: prefixed("DELETE FROM dataset_list_", t),
                params: Vec::new(),
            };
            assert(items@ == (clear_items_sql(t@), Seq::<CellView>::empty()));
            let r = vec![items, main];
            assert(statements_view(r@) =~= clear_plan(kind, t@));
            r
        },
        _ => {
            let r = vec![main];
            assert(statements_view(r@) =~= clear_plan(kind, t@));
            r
        },
    }
}

/// The statements, to run in one transaction, that apply `u` to the table `t` of a
/// dataset of the given kind.
pub fn plan_update(kind: DatasetKind, t: &str, u: &Update) -> (r: Vec<Statement>)
    ensures
        statements_view(r@) == update_plan(kind, t@, *u),
{
    let mut out: Vec<Statement> = Vec::new();
    match u {
        Update::Add(e) => {
            add_statements(kind, t, e, &mut out);
            assert(statements_view(out@) =~= update_plan(kind, t@, *u));
        },
        Update::Remove(k) => {
            match kind {
                DatasetKind::TextMapList | DatasetKind::IpMapList => {
                    out.push(
                        Statement {
                            sql: cat2(
                                "DELETE FROM dataset_list_",
                                t,
                                " WHERE parent IN (SELECT id FROM dataset_",
                                " WHERE data_key = ?1)",
                            ),
                            params: key_params(k),
                        },
                    );
                },
                _ => {},
            }
            out.push(Statement { sql: delete_statement(kind, t), params: key_params(k) });
            assert(statements_view(out@) =~= update_plan(kind, t@, *u));
        },
        Update::Replace(es) => {
            out = clear_statements(kind, t);
            proof {
                assert(es@.subrange(0, 0) =~= Seq::<Entry>::empty());
            }
            let mut i: usize = 0;
            while i < es.len()
                invariant
                    i <= es@.len(),
                    statements_view(out@) == clear_plan(kind, t@) + add_all_plan(
                        kind,
                        t@,
                        es@.subrange(0, i as int),
                    ),
                decreases es@.len() - i,
            {
                add_statements(kind, t, &es[i], &mut out);
                proof {
                    assert(es@.subrange(0, i + 1).drop_last() =~= es@.subrange(0, i as int));
                }
                i = i + 1;
            }
            assert(es@.subrange(0, i as int) =~= es@);
        },
    }
    out
}

/// The statements that apply `u` to the table `t` as one transaction (see
/// `transaction_plan`).
pub fn plan_transaction(kind: DatasetKind, t: &str, u: &Update) -> (r: Vec<Statement>)
    ensures
        statements_view(r@) == transaction_plan(kind, t@, *u),
{
    let begin = Statement { sql: String::from_str("BEGIN"), params: Vec::new() };
    let commit = Statement { sql: String::from_str("COMMIT"), params: Vec::new() };
    assert(begin@ == ("BEGIN"@, Seq::<CellView>::empty()));
    assert(commit@ == ("COMMIT"@, Seq::<CellView>::empty()));
    let mut body = plan_update(kind, t, u);
    let ghost bv = body@;
    let mut r = vec![begin];
    r.append(&mut body);
    r.push(commit);
    assert(r@ == seq![begin] + bv + seq![commit]);
    assert(statements_view(r@) =~= transaction_plan(kind, t@, *u));
    r
}

} // verus!
