//! Entries, mutations and snapshots of datasets, with their mathematical models.

use vstd::prelude::*;
use crate::identity::DatasetKind;
use crate::order::{compare_keys, key_lt, lemma_key_lt_irreflexive, lemma_key_lt_trans};
use crate::ip::Ip;

verus! {

/// One geolocation record. Latitude and longitude are the bit patterns of 32-bit floats.
#[derive(Clone, Debug)]
pub struct GeoRecord {
    pub country: String,
    pub city: String,
    pub latitude: u32,
    pub longitude: u32,
    pub isp: String,
}

/// Model of a geolocation record.
pub struct GeoView {
    pub country: Seq<char>,
    pub city: Seq<char>,
    pub latitude: u32,
    pub longitude: u32,
    pub isp: Seq<char>,
}

/// The key of an entry: a text, an address, or a network (address and prefix length).
#[derive(Clone, Debug)]
pub enum Key {
    Text(String),
    Ip(Ip),
    Net(Ip, u8),
}

/// Model of a key.
pub enum KeyView {
    Text(Seq<char>),
    Ip(Ip),
    Net(Ip, u8),
}

/// The value of an entry: none (set kinds), a text, a list of texts, or a record.
#[derive(Clone, Debug)]
pub enum Value {
    Empty,
    Text(String),
    List(Vec<String>),
    Geo(GeoRecord),
}

/// Model of a value.
pub enum ValueView {
    Empty,
    Text(Seq<char>),
    List(Seq<Seq<char>>),
    Geo(GeoView),
}

/// One key with its value.
#[derive(Clone, Debug)]
pub struct Entry {
    pub key: Key,
    pub value: Value,
}

/// A mutation of one dataset.
#[derive(Clone, Debug)]
pub enum Update {
    Add(Entry),
    Remove(Key),
    Replace(Vec<Entry>),
}

/// The characters of each string in a sequence.
pub open spec fn texts_view(v: Seq<String>) -> Seq<Seq<char>> {
    v.map_values(|s: String| s@)
}

impl View for GeoRecord {
    type V = GeoView;

    open spec fn view(&self) -> GeoView {
        GeoView {
            country: self.country@,
            city: self.city@,
            latitude: self.latitude,
            longitude: self.longitude,
            isp: self.isp@,
        }
    }
}

impl View for Key {
    type V = KeyView;

    open spec fn view(&self) -> KeyView {
        match self {
            Key::Text(s) => KeyView::Text(s@),
            Key::Ip(ip) => KeyView::Ip(*ip),
            Key::Net(ip, p) => KeyView::Net(*ip, *p),
        }
    }
}

impl View for Value {
    type V = ValueView;

    open spec fn view(&self) -> ValueView {
        match self {
            Value::Empty => ValueView::Empty,
            Value::Text(s) => ValueView::Text(s@),
            Value::List(v) => ValueView::List(texts_view(v@)),
            Value::Geo(g) => ValueView::Geo(g@),
        }
    }
}

impl View for Entry {
    type V = (KeyView, ValueView);

    open spec fn view(&self) -> (KeyView, ValueView) {
        (self.key@, self.value@)
    }
}

/// The models of a sequence of entries.
pub open spec fn entries_view(v: Seq<Entry>) -> Seq<(KeyView, ValueView)> {
    v.map_values(|e: Entry| e@)
}

/// A prefix length that fits the address family.
pub open spec fn valid_prefix(ip: Ip, p: u8) -> bool {
    match ip {
        Ip::V4(_) => p <= 32,
        Ip::V6(_) => p <= 128,
    }
}

/// Whether a key and a value have the shape that a dataset kind stores.
pub open spec fn fits(kind: DatasetKind, k: KeyView, v: ValueView) -> bool {
    match kind {
        DatasetKind::TextSet => k is Text && v is Empty,
        DatasetKind::TextMap => k is Text && v is Text,
        DatasetKind::TextMapList => k is Text && v is List,
        DatasetKind::IpSet => k is Ip && v is Empty,
        DatasetKind::IpMap => k is Ip && v is Text,
        DatasetKind::IpMapList => k is Ip && v is List,
        DatasetKind::IpNet => k matches KeyView::Net(ip, p) && valid_prefix(ip, p) && v is Text,
        DatasetKind::GeoIp => k matches KeyView::Net(ip, p) && valid_prefix(ip, p) && v is Geo,
    }
}

/// Whether a key has the shape that a dataset kind stores.
pub open spec fn key_fits(kind: DatasetKind, k: KeyView) -> bool {
    match kind {
        DatasetKind::TextSet | DatasetKind::TextMap | DatasetKind::TextMapList => k is Text,
        DatasetKind::IpSet | DatasetKind::IpMap | DatasetKind::IpMapList => k is Ip,
        DatasetKind::IpNet | DatasetKind::GeoIp => k matches KeyView::Net(ip, p) && valid_prefix(
            ip,
            p,
        ),
    }
}

/// Whether a mutation has the shape that a dataset kind stores.
pub open spec fn update_fits(kind: DatasetKind, u: Update) -> bool {
    match u {
        Update::Add(e) => fits(kind, e.key@, e.value@),
        Update::Remove(k) => key_fits(kind, k@),
        Update::Replace(es) => forall|i: int|
            0 <= i < es@.len() ==> fits(kind, (#[trigger] es@[i]).key@, es@[i].value@),
    }
}

/// The map whose entries are those of `s`, a later entry replacing an earlier one.
pub open spec fn contents_of(s: Seq<(KeyView, ValueView)>) -> Map<KeyView, ValueView>
    decreases s.len(),
{
    if s.len() == 0 {
        Map::empty()
    } else {
        contents_of(s.drop_last()).insert(s.last().0, s.last().1)
    }
}

/// Whether the keys of `s` are strictly increasing in the order `key_lt`.
pub open spec fn keys_increasing(s: Seq<(KeyView, ValueView)>) -> bool {
    forall|i: int, j: int| 0 <= i < j < s.len() ==> key_lt(s[i].0, s[j].0)
}

/// Whether no key occurs twice in `s`.
pub open spec fn keys_unique(s: Seq<(KeyView, ValueView)>) -> bool {
    forall|i: int, j: int| 0 <= i < j < s.len() ==> s[i].0 != s[j].0
}

proof fn lemma_contents_last_match(s: Seq<(KeyView, ValueView)>, j: int, k: KeyView)
    requires
        0 <= j < s.len(),
        s[j].0 == k,
        forall|l: int| j < l < s.len() ==> (#[trigger] s[l]).0 != k,
    ensures
        contents_of(s).contains_key(k),
        contents_of(s)[k] == s[j].1,
    decreases s.len(),
{
    if j < s.len() - 1 {
        let t = s.drop_last();
        assert forall|l: int| j < l < t.len() implies (#[trigger] t[l]).0 != k by {
            assert(t[l] == s[l]);
        }
        lemma_contents_last_match(t, j, k);
    }
}

proof fn lemma_contents_no_match(s: Seq<(KeyView, ValueView)>, k: KeyView)
    requires
        forall|l: int| 0 <= l < s.len() ==> (#[trigger] s[l]).0 != k,
    ensures
        !contents_of(s).contains_key(k),
    decreases s.len(),
{
    if s.len() > 0 {
        let t = s.drop_last();
        assert forall|l: int| 0 <= l < t.len() implies (#[trigger] t[l]).0 != k by {
            assert(t[l] == s[l]);
        }
        lemma_contents_no_match(t, k);
    }
}

/// Whether `ip` lies in the network `net`/`p`: same family, and the top `p` bits agree.
pub open spec fn in_network(net: Ip, p: u8, ip: Ip) -> bool {
    match (net, ip) {
        (Ip::V4(n), Ip::V4(a)) => p == 0 || (p <= 32 && (n >> ((32 - p) as u32)) == (a >> ((32
            - p) as u32))),
        (Ip::V6(n), Ip::V6(a)) => p == 0 || (p <= 128 && (n >> ((128 - p) as u32)) == (a >> ((
        128 - p) as u32))),
        _ => false,
    }
}

/// Whether `ip` lies in the network that the key names (false for other keys).
pub open spec fn key_covers(k: KeyView, ip: Ip) -> bool {
    match k {
        KeyView::Net(n, p) => in_network(n, p, ip),
        _ => false,
    }
}

/// The prefix length of a network key (0 for other keys).
pub open spec fn key_prefix(k: KeyView) -> u8 {
    match k {
        KeyView::Net(_, p) => p,
        _ => 0,
    }
}

fn covers(k: &Key, ip: Ip) -> (r: bool)
    ensures
        r == key_covers(k@, ip),
{
    match k {
        Key::Net(net, p) => match (*net, ip) {
            (Ip::V4(n), Ip::V4(a)) => *p == 0 || (*p <= 32 && (n >> ((32 - *p) as u32)) == (a >> ((
            32 - *p) as u32))),
            (Ip::V6(n), Ip::V6(a)) => *p == 0 || (*p <= 128 && (n >> ((128 - *p) as u32)) == (a
                >> ((128 - *p) as u32))),
            _ => false,
        },
        _ => false,
    }
}

fn prefix_of(k: &Key) -> (r: u8)
    ensures
        r == key_prefix(k@),
{
    match k {
        Key::Net(_, p) => *p,
        _ => 0,
    }
}

proof fn lemma_contents_key_index(s: Seq<(KeyView, ValueView)>, k: KeyView)
    requires
        contents_of(s).contains_key(k),
    ensures
        exists|j: int| 0 <= j < s.len() && (#[trigger] s[j]).0 == k,
    decreases s.len(),
{
    if s.last().0 != k {
        let t = s.drop_last();
        lemma_contents_key_index(t, k);
        let j = choose|j: int| 0 <= j < t.len() && (#[trigger] t[j]).0 == k;
        assert(s[j] == t[j]);
    }
}

/// An immutable, materialized dataset: its kind and its entries.
#[derive(Clone, Debug)]
pub struct Snapshot {
    pub kind: DatasetKind,
    pub entries: Vec<Entry>,
}

impl Snapshot {
    /// The snapshot's contents.
    pub open spec fn contents(&self) -> Map<KeyView, ValueView> {
        contents_of(entries_view(self.entries@))
    }

    /// Every entry has the shape of the snapshot's kind, and keys strictly increase.
    pub open spec fn wf(&self) -> bool {
        &&& forall|i: int|
            0 <= i < self.entries@.len() ==> fits(
                self.kind,
                (#[trigger] self.entries@[i]).key@,
                self.entries@[i].value@,
            )
        &&& keys_increasing(entries_view(self.entries@))
    }

    /// An empty snapshot of the given kind.
    pub fn empty(kind: DatasetKind) -> (r: Snapshot)
        ensures
            r.kind == kind,
            r.wf(),
            r.contents() == Map::<KeyView, ValueView>::empty(),
    {
        let r = Snapshot { kind, entries: Vec::new() };
        assert(entries_view(r.entries@) =~= Seq::empty());
        r
    }

    /// The value stored under `key`, if any; a binary search over the sorted keys.
    pub fn lookup(&self, key: &Key) -> (r: Option<&Value>)
        requires
            self.wf(),
        ensures
            r matches Some(v) ==> self.contents().contains_key(key@) && self.contents()[key@]
                == v@,
            r is None ==> !self.contents().contains_key(key@),
    {
        let ghost s = entries_view(self.entries@);
        let n = self.entries.len();
        let mut lo: usize = 0;
        let mut hi: usize = n;
        while lo < hi
            invariant
                n == self.entries@.len() == s.len(),
                s == entries_view(self.entries@),
                keys_increasing(s),
                lo <= hi <= n,
                forall|j: int| 0 <= j < lo ==> key_lt((#[trigger] s[j]).0, key@),
                forall|j: int| hi <= j < n ==> key_lt(key@, (#[trigger] s[j]).0),
            decreases hi - lo,
        {
            let mid = lo + (hi - lo) / 2;
            let c = compare_keys(&self.entries[mid].key, key);
            assert(s[mid as int].0 == self.entries@[mid as int].key@);
            if c == 0 {
                proof {
                    assert forall|l: int| mid < l < s.len() implies (#[trigger] s[l]).0 != key@ by {
                        assert(key_lt(s[mid as int].0, s[l].0));
                        lemma_key_lt_irreflexive(key@);
                    }
                    lemma_contents_last_match(s, mid as int, key@);
                }
                return Some(&self.entries[mid].value);
            } else if c < 0 {
                proof {
                    assert forall|j: int| 0 <= j < mid + 1 implies key_lt((#[trigger] s[j]).0, key@) by {
                        if j < mid {
                            assert(key_lt(s[j].0, s[mid as int].0));
                            lemma_key_lt_trans(s[j].0, s[mid as int].0, key@);
                        }
                    }
                }
                lo = mid + 1;
            } else {
                proof {
                    assert forall|j: int| mid <= j < n implies key_lt(key@, (#[trigger] s[j]).0) by {
                        if j > mid {
                            assert(key_lt(s[mid as int].0, s[j].0));
                            lemma_key_lt_trans(key@, s[mid as int].0, s[j].0);
                        }
                    }
                }
                hi = mid;
            }
        }
        proof {
            assert forall|l: int| 0 <= l < s.len() implies (#[trigger] s[l]).0 != key@ by {
                lemma_key_lt_irreflexive(key@);
            }
            lemma_contents_no_match(s, key@);
        }
        None
    }

    /// The value of the most specific network that contains `ip`: among the network keys
    /// that cover it, one with the longest prefix.
    pub fn lookup_address(&self, ip: Ip) -> (r: Option<&Value>)
        ensures
            r matches Some(v) ==> exists|k: KeyView|
                #![trigger self.contents()[k]]
                self.contents().contains_key(k) && key_covers(k, ip) && self.contents()[k] == v@
                    && forall|k2: KeyView|
                    self.contents().contains_key(k2) && key_covers(k2, ip) ==> key_prefix(k2)
                        <= key_prefix(k),
            r is None ==> forall|k: KeyView|
                self.contents().contains_key(k) ==> !key_covers(k, ip),
    {
        let ghost s = entries_view(self.entries@);
        let n = self.entries.len();
        let mut best: Option<usize> = None;
        let mut i: usize = 0;
        while i < n
            invariant
                n == self.entries@.len() == s.len(),
                s == entries_view(self.entries@),
                i <= n,
                best is None ==> forall|j: int| 0 <= j < i ==> !key_covers((#[trigger] s[j]).0, ip),
                best matches Some(b) ==> {
                    &&& b < i
                    &&& key_covers(s[b as int].0, ip)
                    &&& forall|j: int|
                        0 <= j < i && key_covers((#[trigger] s[j]).0, ip) ==> key_prefix(s[j].0)
                            <= key_prefix(s[b as int].0)
                    &&& forall|j: int| b < j < i ==> (#[trigger] s[j]).0 != s[b as int].0
                },
            decreases n - i,
        {
            let k = &self.entries[i].key;
            if covers(k, ip) {
                let better = match best {
                    None => true,
                    Some(b) => prefix_of(k) >= prefix_of(&self.entries[b].key),
                };
                if better {
                    best = Some(i);
                }
            }
            i = i + 1;
        }
        match best {
            None => {
                proof {
                    assert forall|k: KeyView| self.contents().contains_key(k) implies !key_covers(
                        k,
                        ip,
                    ) by {
                        lemma_contents_key_index(s, k);
                    }
                }
                None
            },
            Some(b) => {
                proof {
                    let kb = s[b as int].0;
                    lemma_contents_last_match(s, b as int, kb);
                    assert forall|k2: KeyView|
                        self.contents().contains_key(k2) && key_covers(k2, ip) implies key_prefix(k2)
                        <= key_prefix(kb) by {
                        lemma_contents_key_index(s, k2);
                    }
                    assert(self.contents()[kb] == self.entries@[b as int].value@);
                }
                Some(&self.entries[b].value)
            },
        }
    }

    /// Whether `key` is present.
    pub fn contains(&self, key: &Key) -> (r: bool)
        requires
            self.wf(),
        ensures
            r == self.contents().contains_key(key@),
    {
        self.lookup(key).is_some()
    }

    /// The number of stored entries.
    pub fn len(&self) -> (r: usize)
        ensures
            r == self.entries@.len(),
    {
        self.entries.len()
    }
}

fn prefix_fits(ip: Ip, p: u8) -> (r: bool)
    ensures
        r == valid_prefix(ip, p),
{
    match ip {
        Ip::V4(_) => p <= 32,
        Ip::V6(_) => p <= 128,
    }
}

/// Whether a key has the shape that the kind stores.
pub fn key_fits_kind(kind: DatasetKind, k: &Key) -> (r: bool)
    ensures
        r == key_fits(kind, k@),
{
    match kind {
        DatasetKind::TextSet | DatasetKind::TextMap | DatasetKind::TextMapList => matches!(
            k,
            Key::Text(_),
        ),
        DatasetKind::IpSet | DatasetKind::IpMap | DatasetKind::IpMapList => matches!(k, Key::Ip(_)),
        DatasetKind::IpNet | DatasetKind::GeoIp => match k {
            Key::Net(ip, p) => prefix_fits(*ip, *p),
            _ => false,
        },
    }
}

/// Whether an entry has the shape that the kind stores.
pub fn entry_fits(kind: DatasetKind, e: &Entry) -> (r: bool)
    ensures
        r == fits(kind, e.key@, e.value@),
{
    let value_ok = match kind {
        DatasetKind::TextSet | DatasetKind::IpSet => matches!(e.value, Value::Empty),
        DatasetKind::TextMap | DatasetKind::IpMap | DatasetKind::IpNet => matches!(
            e.value,
            Value::Text(_),
        ),
        DatasetKind::TextMapList | DatasetKind::IpMapList => matches!(e.value, Value::List(_)),
        DatasetKind::GeoIp => matches!(e.value, Value::Geo(_)),
    };
    value_ok && key_fits_kind(kind, &e.key)
}

/// Whether a mutation has the shape that the kind stores.
pub fn update_fits_kind(kind: DatasetKind, u: &Update) -> (r: bool)
    ensures
        r == update_fits(kind, *u),
{
    match u {
        Update::Add(e) => entry_fits(kind, e),
        Update::Remove(k) => key_fits_kind(kind, k),
        Update::Replace(es) => {
            let mut i: usize = 0;
            while i < es.len()
                invariant
                    i <= es@.len(),
                    update_fits(kind, *u) == forall|j: int|
                        0 <= j < es@.len() ==> fits(kind, (#[trigger] es@[j]).key@, es@[j].value@),
                    forall|j: int| 0 <= j < i ==> fits(kind, (#[trigger] es@[j]).key@, es@[j].value@),
                decreases es@.len() - i,
            {
                if !entry_fits(kind, &es[i]) {
                    assert(!fits(kind, es@[i as int].key@, es@[i as int].value@));
                    return false;
                }
                i = i + 1;
            }
            true
        },
    }
}

} // verus!
