//! Turning the rows of a dataset scan back into a snapshot.

use vstd::prelude::*;
use crate::identity::{DatasetError, DatasetKind};
use crate::ip::{Ip, ip_form_vec8, ip_of_bytes};
use crate::model::{
    Entry,
    GeoRecord,
    GeoView,
    Key,
    KeyView,
    Snapshot,
    Value,
    ValueView,
    entries_view,
    fits,
    texts_view,
    valid_prefix,
};
use crate::ip::lemma_ip_round_trip;
use crate::model::{keys_increasing, keys_unique};
use crate::order::{compare_keys, key_lt, lemma_key_lt_irreflexive, lemma_key_lt_trans};
use crate::sql::{
    Cell,
    CellView,
    add_plan,
    cells_view,
    insert_item_sql,
    insert_sql,
    is_list_kind,
    key_cells,
    value_cells,
};

verus! {

/// The models of the rows of a scan.
pub open spec fn rows_view(rows: Seq<Vec<Cell>>) -> Seq<Seq<CellView>> {
    rows.map_values(|r: Vec<Cell>| cells_view(r@))
}

/// The address held by a cell, if it holds the encoding of one.
pub open spec fn ip_cell(c: CellView) -> Option<Ip> {
    match c {
        CellView::Blob(b) => ip_of_bytes(b),
        _ => None,
    }
}

/// The text held by a cell.
pub open spec fn text_cell(c: CellView) -> Option<Seq<char>> {
    match c {
        CellView::Text(s) => Some(s),
        _ => None,
    }
}

/// The list items held by the item column of a joined row: none where the key has no items.
pub open spec fn items_cell(c: CellView) -> Option<Seq<Seq<char>>> {
    match c {
        CellView::Text(s) => Some(seq![s]),
        CellView::Null => Some(Seq::empty()),
        _ => None,
    }
}

/// The prefix length held by a cell, if it is one for `ip`.
pub open spec fn net_cell(c: CellView, ip: Ip) -> Option<u8> {
    match c {
        CellView::Int(n) => if 0 <= n <= 255 && valid_prefix(ip, n as u8) {
            Some(n as u8)
        } else {
            None
        },
        _ => None,
    }
}

/// The 32-bit value held by a cell.
pub open spec fn u32_cell(c: CellView) -> Option<u32> {
    match c {
        CellView::Int(n) => if 0 <= n <= u32::MAX {
            Some(n as u32)
        } else {
            None
        },
        _ => None,
    }
}

/// The entry that one scanned row stands for, if the row is well formed. For list kinds
/// the value holds the row's single item, or none.
pub open spec fn row_item(kind: DatasetKind, row: Seq<CellView>) -> Option<(KeyView, ValueView)> {
    match kind {
        DatasetKind::TextSet => if row.len() == 1 && text_cell(row[0]) is Some {
            Some((KeyView::Text(text_cell(row[0]).unwrap()), ValueView::Empty))
        } else {
            None
        },
        DatasetKind::TextMap => if row.len() == 2 && text_cell(row[0]) is Some && text_cell(
            row[1],
        ) is Some {
            Some(
                (
                    KeyView::Text(text_cell(row[0]).unwrap()),
                    ValueView::Text(text_cell(row[1]).unwrap()),
                ),
            )
        } else {
            None
        },
        DatasetKind::TextMapList => if row.len() == 2 && text_cell(row[0]) is Some && items_cell(
            row[1],
        ) is Some {
            Some(
                (
                    KeyView::Text(text_cell(row[0]).unwrap()),
                    ValueView::List(items_cell(row[1]).unwrap()),
                ),
            )
        } else {
            None
        },
        DatasetKind::IpSet => if row.len() == 1 && ip_cell(row[0]) is Some {
            Some((KeyView::Ip(ip_cell(row[0]).unwrap()), ValueView::Empty))
        } else {
            None
        },
        DatasetKind::IpMap => if row.len() == 2 && ip_cell(row[0]) is Some && text_cell(
            row[1],
        ) is Some {
            Some(
                (
                    KeyView::Ip(ip_cell(row[0]).unwrap()),
                    ValueView::Text(text_cell(row[1]).unwrap()),
                ),
            )
        } else {
            None
        },
        DatasetKind::IpMapList => if row.len() == 2 && ip_cell(row[0]) is Some && items_cell(
            row[1],
        ) is Some {
            Some(
                (
                    KeyView::Ip(ip_cell(row[0]).unwrap()),
                    ValueView::List(items_cell(row[1]).unwrap()),
                ),
            )
        } else {
            None
        },
        DatasetKind::IpNet => if row.len() == 3 && ip_cell(row[0]) is Some && net_cell(
            row[1],
            ip_cell(row[0]).unwrap(),
        ) is Some && text_cell(row[2]) is Some {
            let ip = ip_cell(row[0]).unwrap();
            Some(
                (
                    KeyView::Net(ip, net_cell(row[1], ip).unwrap()),
                    ValueView::Text(text_cell(row[2]).unwrap()),
                ),
            )
        } else {
            None
        },
        DatasetKind::GeoIp => if row.len() == 7 && ip_cell(row[0]) is Some && net_cell(
            row[1],
            ip_cell(row[0]).unwrap(),
        ) is Some && text_cell(row[2]) is Some && text_cell(row[3]) is Some && u32_cell(
            row[4],
        ) is Some && u32_cell(row[5]) is Some && text_cell(row[6]) is Some {
            let ip = ip_cell(row[0]).unwrap();
            Some(
                (
                    KeyView::Net(ip, net_cell(row[1], ip).unwrap()),
                    ValueView::Geo(
                        GeoView {
                            country: text_cell(row[2]).unwrap(),
                            city: text_cell(row[3]).unwrap(),
                            latitude: u32_cell(row[4]).unwrap(),
                            longitude: u32_cell(row[5]).unwrap(),
                            isp: text_cell(row[6]).unwrap(),
                        },
                    ),
                ),
            )
        } else {
            None
        },
    }
}

/// Adds a row's entry to those decoded so far: for list kinds, consecutive rows of one
/// key gather their items in order into one entry.
pub open spec fn merge_item(
    kind: DatasetKind,
    acc: Seq<(KeyView, ValueView)>,
    item: (KeyView, ValueView),
) -> Seq<(KeyView, ValueView)> {
    if is_list_kind(kind) && acc.len() > 0 && acc.last().0 == item.0 {
        match (acc.last().1, item.1) {
            (ValueView::List(a), ValueView::List(b)) => acc.drop_last().push(
                (item.0, ValueView::List(a + b)),
            ),
            _ => acc.push(item),
        }
    } else {
        acc.push(item)
    }
}

/// The entries that a scan stands for; a malformed row fails the whole scan.
pub open spec fn decode_rows(kind: DatasetKind, rows: Seq<Seq<CellView>>) -> Option<
    Seq<(KeyView, ValueView)>,
>
    decreases rows.len(),
{
    if rows.len() == 0 {
        Some(Seq::empty())
    } else {
        match decode_rows(kind, rows.drop_last()) {
            None => None,
            Some(acc) => match row_item(kind, rows.last()) {
                Some(item) => Some(merge_item(kind, acc, item)),
                None => None,
            },
        }
    }
}

fn cell_text(c: &Cell) -> (r: Option<String>)
    ensures
        r matches Some(s) ==> text_cell(c@) == Some(s@),
        r is None <==> text_cell(c@) is None,
{
    match c {
        Cell::Text(s) => Some(s.clone()),
        _ => None,
    }
}

fn cell_items(c: &Cell) -> (r: Option<Vec<String>>)
    ensures
        r matches Some(v) ==> items_cell(c@) == Some(texts_view(v@)),
        r is None <==> items_cell(c@) is None,
{
    match c {
        Cell::Text(s) => {
            let v = vec![s.clone()];
            assert(texts_view(v@) =~= seq![s@]);
            Some(v)
        },
        Cell::Null => {
            let v: Vec<String> = Vec::new();
            assert(texts_view(v@) =~= Seq::empty());
            Some(v)
        },
        _ => None,
    }
}

fn cell_ip(c: &Cell) -> (r: Option<Ip>)
    ensures
        r == ip_cell(c@),
{
    match c {
        Cell::Blob(b) => match ip_form_vec8(b) {
            Ok(ip) => Some(ip),
            Err(_) => None,
        },
        _ => None,
    }
}

fn cell_net(c: &Cell, ip: Ip) -> (r: Option<u8>)
    ensures
        r == net_cell(c@, ip),
{
    match c {
        Cell::Int(n) => {
            if 0 <= *n && *n <= 255 {
                let p = *n as u8;
                let ok = match ip {
                    Ip::V4(_) => p <= 32,
                    Ip::V6(_) => p <= 128,
                };
                if ok {
                    Some(p)
                } else {
                    None
                }
            } else {
                None
            }
        },
        _ => None,
    }
}

fn cell_u32(c: &Cell) -> (r: Option<u32>)
    ensures
        r == u32_cell(c@),
{
    match c {
        Cell::Int(n) => {
            if 0 <= *n && *n <= 0xffff_ffff {
                Some(*n as u32)
            } else {
                None
            }
        },
        _ => None,
    }
}

/// The entry that one scanned row stands for, if the row is well formed.
pub fn decode_row(kind: DatasetKind, row: &Vec<Cell>) -> (r: Option<Entry>)
    ensures
        r matches Some(e) ==> row_item(kind, cells_view(row@)) == Some(e@),
        r is None <==> row_item(kind, cells_view(row@)) is None,
{
    let ghost rv = cells_view(row@);
    let n = row.len();
    match kind {
        DatasetKind::TextSet => {
            if n != 1 {
                return None;
            }
            let k = cell_text(&row[0])?;
            Some(Entry { key: Key::Text(k), value: Value::Empty })
        },
        DatasetKind::TextMap => {
            if n != 2 {
                return None;
            }
            let k = cell_text(&row[0])?;
            let v = cell_text(&row[1])?;
            Some(Entry { key: Key::Text(k), value: Value::Text(v) })
        },
        DatasetKind::TextMapList => {
            if n != 2 {
                return None;
            }
            let k = cell_text(&row[0])?;
            let v = cell_items(&row[1])?;
            Some(Entry { key: Key::Text(k), value: Value::List(v) })
        },
        DatasetKind::IpSet => {
            if n != 1 {
                return None;
            }
            let ip = cell_ip(&row[0])?;
            Some(Entry { key: Key::Ip(ip), value: Value::Empty })
        },
        DatasetKind::IpMap => {
            if n != 2 {
                return None;
            }
            let ip = cell_ip(&row[0])?;
            let v = cell_text(&row[1])?;
            Some(Entry { key: Key::Ip(ip), value: Value::Text(v) })
        },
        DatasetKind::IpMapList => {
            if n != 2 {
                return None;
            }
            let ip = cell_ip(&row[0])?;
            let v = cell_items(&row[1])?;
            Some(Entry { key: Key::Ip(ip), value: Value::List(v) })
        },
        DatasetKind::IpNet => {
            if n != 3 {
                return None;
            }
            let ip = cell_ip(&row[0])?;
            let p = cell_net(&row[1], ip)?;
            let v = cell_text(&row[2])?;
            Some(Entry { key: Key::Net(ip, p), value: Value::Text(v) })
        },
        DatasetKind::GeoIp => {
            if n != 7 {
                return None;
            }
            let ip = cell_ip(&row[0])?;
            let p = cell_net(&row[1], ip)?;
            let country = cell_text(&row[2])?;
            let city = cell_text(&row[3])?;
            let latitude = cell_u32(&row[4])?;
            let longitude = cell_u32(&row[5])?;
            let isp = cell_text(&row[6])?;
            Some(
                Entry {
                    key: Key::Net(ip, p),
                    value: Value::Geo(GeoRecord { country, city, latitude, longitude, isp }),
                },
            )
        },
    }
}

proof fn lemma_decode_fails_on(kind: DatasetKind, rows: Seq<Seq<CellView>>, n: int)
    requires
        0 <= n <= rows.len(),
        decode_rows(kind, rows.subrange(0, n)) is None,
    ensures
        decode_rows(kind, rows) is None,
    decreases rows.len() - n,
{
    if n < rows.len() {
        assert(rows.subrange(0, n + 1).drop_last() =~= rows.subrange(0, n));
        lemma_decode_fails_on(kind, rows, n + 1);
    } else {
        assert(rows.subrange(0, n) =~= rows);
    }
}

proof fn lemma_merge_fits(kind: DatasetKind, acc: Seq<(KeyView, ValueView)>, item: (KeyView, ValueView))
    requires
        forall|i: int| 0 <= i < acc.len() ==> fits(kind, (#[trigger] acc[i]).0, acc[i].1),
        fits(kind, item.0, item.1),
    ensures
        ({
            let m = merge_item(kind, acc, item);
            forall|i: int| 0 <= i < m.len() ==> fits(kind, (#[trigger] m[i]).0, m[i].1)
        }),
{
    let m = merge_item(kind, acc, item);
    assert forall|i: int| 0 <= i < m.len() implies fits(kind, (#[trigger] m[i]).0, m[i].1) by {
        if i < acc.len() - 1 {
            assert(m[i] == acc[i]);
        }
        if i == acc.len() - 1 && i >= 0 {
            assert(m[i] == acc[i] || m[i].0 == item.0);
        }
    }
}

proof fn lemma_decode_prefix_keys(kind: DatasetKind, rows: Seq<Seq<CellView>>, n: int)
    requires
        0 <= n <= rows.len(),
        decode_rows(kind, rows) is Some,
    ensures
        decode_rows(kind, rows.subrange(0, n)) is Some,
        decode_rows(kind, rows.subrange(0, n)).unwrap().len() <= decode_rows(kind, rows).unwrap().len(),
        forall|j: int|
            0 <= j < decode_rows(kind, rows.subrange(0, n)).unwrap().len() ==> (#[trigger] decode_rows(
                kind,
                rows.subrange(0, n),
            ).unwrap()[j]).0 == decode_rows(kind, rows).unwrap()[j].0,
    decreases rows.len() - n,
{
    if n == rows.len() {
        assert(rows.subrange(0, n) =~= rows);
    } else {
        lemma_decode_prefix_keys(kind, rows, n + 1);
        let longer = rows.subrange(0, n + 1);
        assert(longer.drop_last() =~= rows.subrange(0, n));
        let p = decode_rows(kind, rows.subrange(0, n)).unwrap();
        let q = decode_rows(kind, longer).unwrap();
        assert forall|j: int| 0 <= j < p.len() implies (#[trigger] p[j]).0 == q[j].0 by {
            match row_item(kind, longer.last()) {
                Some(item) => {
                    if j < p.len() - 1 {
                        assert(q[j] == p[j]);
                    }
                },
                None => {},
            }
        }
    }
}

/// The snapshot of the given kind that a scan's rows stand for. Fails with
/// `StorageLoadFailed` where a row is malformed or where the keys do not come in strictly
/// increasing order.
pub fn decode_snapshot(kind: DatasetKind, rows: &Vec<Vec<Cell>>) -> (r: Result<Snapshot, DatasetError>)
    ensures
        r matches Ok(s) ==> s.kind == kind && s.wf() && Some(entries_view(s.entries@))
            == decode_rows(kind, rows_view(rows@)),
        r is Ok <==> (decode_rows(kind, rows_view(rows@)) matches Some(es) && keys_increasing(es)),
        r is Err ==> r == Err::<Snapshot, DatasetError>(DatasetError::StorageLoadFailed),
{
    let mut entries: Vec<Entry> = Vec::new();
    let mut i: usize = 0;
    proof {
        assert(rows_view(rows@).subrange(0, 0) =~= Seq::<Seq<CellView>>::empty());
        assert(entries_view(entries@) =~= Seq::empty());
    }
    while i < rows.len()
        invariant
            i <= rows@.len(),
            decode_rows(kind, rows_view(rows@).subrange(0, i as int)) == Some(
                entries_view(entries@),
            ),
            forall|j: int|
                0 <= j < entries@.len() ==> fits(
                    kind,
                    (#[trigger] entries@[j]).key@,
                    entries@[j].value@,
                ),
            keys_increasing(entries_view(entries@)),
        decreases rows@.len() - i,
    {
        let ghost acc = entries_view(entries@);
        let ghost prefix = rows_view(rows@).subrange(0, i + 1);
        assert(prefix.drop_last() =~= rows_view(rows@).subrange(0, i as int));
        assert(prefix.last() == cells_view(rows@[i as int]@));
        match decode_row(kind, &rows[i]) {
            None => {
                proof {
                    lemma_decode_fails_on(kind, rows_view(rows@), i + 1);
                }
                return Err(DatasetError::StorageLoadFailed);
            },
            Some(e) => {
                proof {
                    assert forall|j: int| 0 <= j < acc.len() implies fits(
                        kind,
                        (#[trigger] acc[j]).0,
                        acc[j].1,
                    ) by {
                        assert(acc[j] == entries@[j]@);
                    }
                    lemma_merge_fits(kind, acc, e@);
                }
                let len = entries.len();
                let c: i8 = if len > 0 {
                    compare_keys(&entries[len - 1].key, &e.key)
                } else {
                    -1
                };
                let mergeable = (matches!(kind, DatasetKind::TextMapList) || matches!(
                    kind,
                    DatasetKind::IpMapList,
                )) && len > 0 && c == 0 && matches!(entries[len - 1].value, Value::List(_))
                    && matches!(e.value, Value::List(_));
                if !mergeable && c >= 0 {
                    proof {
                        let m = merge_item(kind, acc, e@);
                        assert(m == acc.push(e@));
                        lemma_key_lt_irreflexive(e.key@);
                        assert(!key_lt(m[len - 1].0, m[len as int].0));
                        if decode_rows(kind, rows_view(rows@)) is Some {
                            lemma_decode_prefix_keys(kind, rows_view(rows@), i + 1);
                            let full = decode_rows(kind, rows_view(rows@)).unwrap();
                            assert(m[len - 1].0 == full[len - 1].0);
                            assert(m[len as int].0 == full[len as int].0);
                        }
                    }
                    return Err(DatasetError::StorageLoadFailed);
                }
                if mergeable {
                    let last = entries.pop().unwrap();
                    let mut a = match last.value {
                        Value::List(a) => a,
                        _ => Vec::new(),
                    };
                    let mut b = match e.value {
                        Value::List(b) => b,
                        _ => Vec::new(),
                    };
                    let ghost av = texts_view(a@);
                    let ghost bv = texts_view(b@);
                    a.append(&mut b);
                    assert(texts_view(a@) =~= av + bv);
                    entries.push(Entry { key: e.key, value: Value::List(a) });
                } else {
                    entries.push(e);
                }
                proof {
                    let m = merge_item(kind, acc, e@);
                    assert(entries_view(entries@) =~= m);
                    assert forall|j: int| 0 <= j < entries@.len() implies fits(
                        kind,
                        (#[trigger] entries@[j]).key@,
                        entries@[j].value@,
                    ) by {
                        assert(entries@[j]@ == m[j]);
                    }
                    assert forall|x: int, y: int| 0 <= x < y < m.len() implies key_lt(
                        m[x].0,
                        m[y].0,
                    ) by {
                        if y == m.len() - 1 && !mergeable {
                            if x < len - 1 {
                                lemma_key_lt_trans(m[x].0, acc[len - 1].0, m[y].0);
                            }
                        } else {
                            assert(m[x].0 == acc[x].0);
                            assert(m[y].0 == acc[y].0);
                        }
                    }
                }
            },
        }
        i = i + 1;
    }
    assert(rows_view(rows@).subrange(0, i as int) =~= rows_view(rows@));
    Ok(Snapshot { kind, entries })
}

/// The rows that a scan returns for one stored entry: the key row with its value, or,
/// for list kinds, one joined row per item in order (a single row with no item where
/// the list is empty).
pub open spec fn entry_rows(kind: DatasetKind, e: (KeyView, ValueView)) -> Seq<Seq<CellView>> {
    if is_list_kind(kind) {
        match e.1 {
            ValueView::List(items) => if items.len() == 0 {
                seq![key_cells(e.0).push(CellView::Null)]
            } else {
                Seq::new(items.len(), |i: int| key_cells(e.0).push(CellView::Text(items[i])))
            },
            _ => Seq::empty(),
        }
    } else {
        seq![key_cells(e.0) + value_cells(e.1)]
    }
}

/// The rows that a scan returns for a table holding `es`, stored in that order.
pub open spec fn stored_rows(kind: DatasetKind, es: Seq<(KeyView, ValueView)>) -> Seq<
    Seq<CellView>,
>
    decreases es.len(),
{
    if es.len() == 0 {
        Seq::empty()
    } else {
        stored_rows(kind, es.drop_last()) + entry_rows(kind, es.last())
    }
}

proof fn lemma_key_row(kind: DatasetKind, k: KeyView, v: ValueView)
    requires
        fits(kind, k, v),
    ensures
        !is_list_kind(kind) ==> row_item(kind, key_cells(k) + value_cells(v)) == Some((k, v)),
        is_list_kind(kind) ==> row_item(kind, key_cells(k).push(CellView::Null)) == Some(
            (k, ValueView::List(Seq::empty())),
        ),
        is_list_kind(kind) ==> forall|s: Seq<char>|
            row_item(kind, #[trigger] key_cells(k).push(CellView::Text(s))) == Some(
                (k, ValueView::List(seq![s])),
            ),
{
    match k {
        KeyView::Ip(ip) => lemma_ip_round_trip(ip),
        KeyView::Net(ip, p) => lemma_ip_round_trip(ip),
        _ => {},
    }
    let r = key_cells(k) + value_cells(v);
    match kind {
        DatasetKind::GeoIp => {
            assert(r[0] == key_cells(k)[0]);
            assert(r[1] == key_cells(k)[1]);
            assert(r[2] == value_cells(v)[0]);
            assert(r[6] == value_cells(v)[4]);
        },
        DatasetKind::IpNet => {
            assert(r[1] == key_cells(k)[1]);
            assert(r[2] == value_cells(v)[0]);
        },
        DatasetKind::TextMap | DatasetKind::IpMap => {
            assert(r[1] == value_cells(v)[0]);
        },
        _ => {},
    }
    assert(row_item(kind, r) matches Some(x) ==> x.1 =~~= v);
}

proof fn lemma_decode_items(
    kind: DatasetKind,
    rows: Seq<Seq<CellView>>,
    acc: Seq<(KeyView, ValueView)>,
    e: (KeyView, ValueView),
    j: int,
)
    requires
        is_list_kind(kind),
        decode_rows(kind, rows) == Some(acc),
        fits(kind, e.0, e.1),
        acc.len() > 0 ==> acc.last().0 != e.0,
        1 <= j <= e.1->List_0.len(),
    ensures
        decode_rows(kind, rows + entry_rows(kind, e).subrange(0, j)) == Some(
            acc.push((e.0, ValueView::List(e.1->List_0.subrange(0, j)))),
        ),
    decreases j,
{
    lemma_key_row(kind, e.0, e.1);
    let b = entry_rows(kind, e);
    let items = e.1->List_0;
    assert(b.len() == items.len());
    if j == 1 {
        assert((rows + b.subrange(0, 1)).drop_last() =~= rows);
        assert(b[0] == key_cells(e.0).push(CellView::Text(items[0])));
        assert(seq![items[0]] =~= items.subrange(0, 1));
    } else {
        lemma_decode_items(kind, rows, acc, e, j - 1);
        let i = j - 1;
        assert((rows + b.subrange(0, j)).drop_last() =~= rows + b.subrange(0, i));
        assert((rows + b.subrange(0, j)).last() == b[i]);
        assert(b[i] == key_cells(e.0).push(CellView::Text(items[i])));
        assert(items.subrange(0, i) + seq![items[i]] =~= items.subrange(0, j));
        let a2 = acc.push((e.0, ValueView::List(items.subrange(0, i))));
        assert(a2.drop_last().push((e.0, ValueView::List(items.subrange(0, j)))) =~= acc.push(
            (e.0, ValueView::List(items.subrange(0, j))),
        ));
    }
}

proof fn lemma_decode_block(
    kind: DatasetKind,
    rows: Seq<Seq<CellView>>,
    acc: Seq<(KeyView, ValueView)>,
    e: (KeyView, ValueView),
)
    requires
        decode_rows(kind, rows) == Some(acc),
        fits(kind, e.0, e.1),
        acc.len() > 0 ==> acc.last().0 != e.0,
    ensures
        decode_rows(kind, rows + entry_rows(kind, e)) == Some(acc.push(e)),
{
    lemma_key_row(kind, e.0, e.1);
    let b = entry_rows(kind, e);
    if !is_list_kind(kind) {
        assert((rows + b).drop_last() =~= rows);
        assert((rows + b).last() == b[0]);
    } else {
        let items = e.1->List_0;
        if items.len() == 0 {
            assert((rows + b).drop_last() =~= rows);
            assert((rows + b).last() == b[0]);
            assert(items =~= Seq::<Seq<char>>::empty());
            assert(e == (e.0, ValueView::List(Seq::empty())));
        } else {
            assert((rows + b.subrange(0, 1)).drop_last() =~= rows);
            assert(b[0] == key_cells(e.0).push(CellView::Text(items[0])));
            assert(seq![items[0]] =~= items.subrange(0, 1));
            let j = items.len() as int;
            lemma_decode_items(kind, rows, acc, e, j);
            assert(b.subrange(0, j) =~= b);
            assert(items.subrange(0, j) =~= items);
            assert(e == (e.0, ValueView::List(items)));
        }
    }
}

/// The statements that add an entry write the rows that a scan reads back for it: the
/// key row with its value, or the key row and then one item row per list item, in order.
pub proof fn lemma_add_writes_entry_rows(kind: DatasetKind, t: Seq<char>, k: KeyView, v: ValueView)
    requires
        fits(kind, k, v),
    ensures
        !is_list_kind(kind) ==> add_plan(kind, t, k, v) == seq![
            (insert_sql(kind, t), entry_rows(kind, (k, v))[0]),
        ],
        is_list_kind(kind) && v->List_0.len() > 0 ==> add_plan(kind, t, k, v) == seq![
            (insert_sql(kind, t), key_cells(k)),
        ] + entry_rows(kind, (k, v)).map_values(|r: Seq<CellView>| (insert_item_sql(t), r)),
{
    if is_list_kind(kind) && v->List_0.len() > 0 {
        let items = v->List_0;
        let rows = entry_rows(kind, (k, v));
        assert(rows.len() == items.len());
        assert forall|i: int| 0 <= i < items.len() implies key_cells(k) + seq![
            CellView::Text(items[i]),
        ] == #[trigger] rows[i] by {
            assert(key_cells(k) + seq![CellView::Text(items[i])] =~= key_cells(k).push(
                CellView::Text(items[i]),
            ));
        }
        assert(add_plan(kind, t, k, v) =~= seq![(insert_sql(kind, t), key_cells(k))]
            + rows.map_values(|r: Seq<CellView>| (insert_item_sql(t), r)));
    }
}

/// Rows that a scan returns for distinct keys, each in the layout that `add_plan` writes
/// (see `lemma_add_writes_entry_rows`), decode to exactly those entries, in order.
pub proof fn lemma_scan_reads_back(kind: DatasetKind, es: Seq<(KeyView, ValueView)>)
    requires
        forall|i: int| 0 <= i < es.len() ==> fits(kind, (#[trigger] es[i]).0, es[i].1),
        keys_unique(es),
    ensures
        decode_rows(kind, stored_rows(kind, es)) == Some(es),
    decreases es.len(),
{
    if es.len() > 0 {
        let init = es.drop_last();
        assert forall|i: int| 0 <= i < init.len() implies fits(
            kind,
            (#[trigger] init[i]).0,
            init[i].1,
        ) by {
            assert(init[i] == es[i]);
        }
        lemma_scan_reads_back(kind, init);
        assert(fits(kind, es[es.len() - 1].0, es[es.len() - 1].1));
        if init.len() > 0 {
            assert(init.last() == es[es.len() - 2]);
        }
        lemma_decode_block(kind, stored_rows(kind, init), init, es.last());
        assert(init.push(es.last()) =~= es);
    }
}

} // verus!
