//! The saved connections: one record per identity, kept in the order of
//! server, then port, then nickname.
//!
//! This is the store as a list in memory. Loading it from a file and
//! writing it back is the caller's part.

use crate::connection::{ConnectionConfig, ConnectionConfigView};
use crate::text::{chars_equal, chars_of};
use vstd::prelude::*;

verus! {

/// Whether text `a` sorts before text `b` from index `i` on: at the first
/// place where they differ `a` has the smaller character, or `a` ends first.
pub open spec fn text_before_from(a: Seq<char>, b: Seq<char>, i: int) -> bool
    decreases a.len() - i,
{
    if i < 0 || i >= b.len() {
        false
    } else if i >= a.len() {
        true
    } else if a[i] != b[i] {
        (a[i] as u32) < (b[i] as u32)
    } else {
        text_before_from(a, b, i + 1)
    }
}

/// Whether text `a` sorts before text `b`, character by character.
pub open spec fn text_before(a: Seq<char>, b: Seq<char>) -> bool {
    text_before_from(a, b, 0)
}

/// Whether record `x` sorts before record `y`: by server, then by port,
/// then by nickname.
pub open spec fn sorts_before(x: ConnectionConfigView, y: ConnectionConfigView) -> bool {
    text_before(x.server, y.server) || (x.server == y.server && (x.port < y.port || (x.port
        == y.port && text_before(x.nickname, y.nickname))))
}

/// Whether two records name the same connection.
pub open spec fn same_identity(x: ConnectionConfigView, y: ConnectionConfigView) -> bool {
    x.server == y.server && x.port == y.port && x.nickname == y.nickname
}

/// No record stands after one it sorts before.
pub open spec fn ordered(list: Seq<ConnectionConfigView>) -> bool {
    forall|i: int, j: int| 0 <= i < j < list.len() ==> !sorts_before(list[j], list[i])
}

/// First index at or after `i` whose record `x` sorts before, or the length.
pub open spec fn place_of(list: Seq<ConnectionConfigView>, x: ConnectionConfigView, i: int) -> int
    decreases list.len() - i,
{
    if 0 <= i < list.len() && !sorts_before(x, list[i]) {
        place_of(list, x, i + 1)
    } else {
        i
    }
}

/// `x` put into `list` before the first record it sorts before.
pub open spec fn inserted(list: Seq<ConnectionConfigView>, x: ConnectionConfigView) -> Seq<
    ConnectionConfigView,
> {
    list.insert(place_of(list, x, 0), x)
}

/// The records of `list` in sorted order; records that neither sorts before
/// the other keep the order they had.
pub open spec fn sorted(list: Seq<ConnectionConfigView>) -> Seq<ConnectionConfigView>
    decreases list.len(),
{
    if list.len() == 0 {
        list
    } else {
        inserted(sorted(list.drop_last()), list.last())
    }
}

/// First index at or after `i` whose record names the same connection as
/// `x`, or the length.
pub open spec fn position_of(list: Seq<ConnectionConfigView>, x: ConnectionConfigView, i: int) -> int
    decreases list.len() - i,
{
    if 0 <= i < list.len() && !same_identity(list[i], x) {
        position_of(list, x, i + 1)
    } else {
        i
    }
}

/// The list after `x` was saved: `x` stands in place of the first record
/// that names the same connection, or is added when there is none; then the
/// list is sorted.
pub open spec fn upserted(list: Seq<ConnectionConfigView>, x: ConnectionConfigView) -> Seq<
    ConnectionConfigView,
> {
    let at = position_of(list, x, 0);
    if 0 <= at < list.len() {
        sorted(list.update(at, x))
    } else {
        sorted(list.push(x))
    }
}

proof fn lemma_text_before_irreflexive(a: Seq<char>, i: int)
    requires
        0 <= i,
    ensures
        !text_before_from(a, a, i),
    decreases a.len() - i,
{
    if i < a.len() {
        lemma_text_before_irreflexive(a, i + 1);
    }
}

proof fn lemma_text_before_transitive(a: Seq<char>, b: Seq<char>, c: Seq<char>, i: int)
    requires
        0 <= i,
        text_before_from(a, b, i),
        text_before_from(b, c, i),
    ensures
        text_before_from(a, c, i),
    decreases a.len() - i,
{
    if i < a.len() && a[i] == b[i] && b[i] == c[i] {
        lemma_text_before_transitive(a, b, c, i + 1);
    }
}

/// Sorting before is a strict order: nothing sorts before itself, and what
/// sorts before a record sorts before all that the record sorts before.
pub proof fn lemma_sorts_before_is_strict(
    x: ConnectionConfigView,
    y: ConnectionConfigView,
    z: ConnectionConfigView,
)
    ensures
        !sorts_before(x, x),
        sorts_before(x, y) && sorts_before(y, z) ==> sorts_before(x, z),
        sorts_before(x, y) ==> !sorts_before(y, x),
{
    lemma_text_before_irreflexive(x.server, 0);
    lemma_text_before_irreflexive(x.nickname, 0);
    if sorts_before(x, y) && sorts_before(y, z) {
        if text_before(x.server, y.server) && text_before(y.server, z.server) {
            lemma_text_before_transitive(x.server, y.server, z.server, 0);
        }
        if text_before(x.nickname, y.nickname) && text_before(y.nickname, z.nickname) {
            lemma_text_before_transitive(x.nickname, y.nickname, z.nickname, 0);
        }
    }
    if sorts_before(x, y) && sorts_before(y, x) {
        if text_before(x.server, y.server) && text_before(y.server, x.server) {
            lemma_text_before_transitive(x.server, y.server, x.server, 0);
        }
        if text_before(x.nickname, y.nickname) && text_before(y.nickname, x.nickname) {
            lemma_text_before_transitive(x.nickname, y.nickname, x.nickname, 0);
        }
    }
}

proof fn lemma_place_of(list: Seq<ConnectionConfigView>, x: ConnectionConfigView, i: int)
    requires
        0 <= i <= list.len(),
    ensures
        i <= place_of(list, x, i) <= list.len(),
        place_of(list, x, i) < list.len() ==> sorts_before(x, list[place_of(list, x, i)]),
        forall|k: int| i <= k < place_of(list, x, i) ==> !sorts_before(x, #[trigger] list[k]),
    decreases list.len() - i,
{
    if i < list.len() && !sorts_before(x, list[i]) {
        lemma_place_of(list, x, i + 1);
    }
}

proof fn lemma_inserted_ordered(list: Seq<ConnectionConfigView>, x: ConnectionConfigView)
    requires
        ordered(list),
    ensures
        ordered(inserted(list, x)),
{
    lemma_place_of(list, x, 0);
    let p = place_of(list, x, 0);
    let r = inserted(list, x);
    assert forall|i: int, j: int| 0 <= i < j < r.len() implies !sorts_before(r[j], r[i]) by {
        if i == p {
            lemma_sorts_before_is_strict(list[j - 1], x, list[p]);
        }
    }
}

/// A sorted list is in order.
pub proof fn lemma_sorted_is_ordered(list: Seq<ConnectionConfigView>)
    ensures
        ordered(sorted(list)),
    decreases list.len(),
{
    if list.len() > 0 {
        lemma_sorted_is_ordered(list.drop_last());
        lemma_inserted_ordered(sorted(list.drop_last()), list.last());
    }
}

/// Sorting keeps every record, as often as it occurs.
pub proof fn lemma_sorted_keeps_records(list: Seq<ConnectionConfigView>)
    ensures
        sorted(list).to_multiset() == list.to_multiset(),
        sorted(list).len() == list.len(),
    decreases list.len(),
{
    broadcast use vstd::seq_lib::group_to_multiset_ensures;

    if list.len() > 0 {
        let rest = list.drop_last();
        lemma_sorted_keeps_records(rest);
        lemma_place_of(sorted(rest), list.last(), 0);
        assert(rest.push(list.last()) =~= list);
    }
}

/// Saving a record leaves the list in order, and the saved record is in it.
pub proof fn lemma_upserted_is_ordered(list: Seq<ConnectionConfigView>, x: ConnectionConfigView)
    ensures
        ordered(upserted(list, x)),
        upserted(list, x).contains(x),
{
    broadcast use vstd::seq_lib::group_to_multiset_ensures;

    let at = position_of(list, x, 0);
    let changed = if 0 <= at < list.len() {
        list.update(at, x)
    } else {
        list.push(x)
    };
    lemma_sorted_is_ordered(changed);
    lemma_sorted_keeps_records(changed);
    assert(changed.to_multiset().count(x) > 0);
}

/// No two records name the same connection.
pub open spec fn unique(list: Seq<ConnectionConfigView>) -> bool {
    forall|i: int, j: int| 0 <= i < j < list.len() ==> !same_identity(list[i], list[j])
}

/// No record names the same connection as `x`.
pub open spec fn absent(list: Seq<ConnectionConfigView>, x: ConnectionConfigView) -> bool {
    forall|k: int| 0 <= k < list.len() ==> !same_identity(#[trigger] list[k], x)
}

proof fn lemma_position_of(list: Seq<ConnectionConfigView>, x: ConnectionConfigView, i: int)
    requires
        0 <= i <= list.len(),
    ensures
        i <= position_of(list, x, i) <= list.len(),
        position_of(list, x, i) < list.len() ==> same_identity(list[position_of(list, x, i)], x),
        forall|k: int| i <= k < position_of(list, x, i) ==> !same_identity(#[trigger] list[k], x),
    decreases list.len() - i,
{
    if i < list.len() && !same_identity(list[i], x) {
        lemma_position_of(list, x, i + 1);
    }
}

proof fn lemma_inserted_absent(
    list: Seq<ConnectionConfigView>,
    y: ConnectionConfigView,
    x: ConnectionConfigView,
)
    requires
        absent(list, x),
        !same_identity(y, x),
    ensures
        absent(inserted(list, y), x),
{
    lemma_place_of(list, y, 0);
    let p = place_of(list, y, 0);
    let r = inserted(list, y);
    assert forall|k: int| 0 <= k < r.len() implies !same_identity(#[trigger] r[k], x) by {
        if k < p {
            assert(r[k] == list[k]);
        } else if k > p {
            assert(r[k] == list[k - 1]);
        }
    }
}

proof fn lemma_sorted_absent(list: Seq<ConnectionConfigView>, x: ConnectionConfigView)
    requires
        absent(list, x),
    ensures
        absent(sorted(list), x),
    decreases list.len(),
{
    if list.len() > 0 {
        let rest = list.drop_last();
        assert forall|k: int| 0 <= k < rest.len() implies !same_identity(#[trigger] rest[k], x) by {
            assert(rest[k] == list[k]);
        }
        lemma_sorted_absent(rest, x);
        assert(!same_identity(list[list.len() - 1], x));
        lemma_inserted_absent(sorted(rest), list.last(), x);
    }
}

proof fn lemma_inserted_unique(list: Seq<ConnectionConfigView>, y: ConnectionConfigView)
    requires
        unique(list),
        absent(list, y),
    ensures
        unique(inserted(list, y)),
{
    lemma_place_of(list, y, 0);
    let p = place_of(list, y, 0);
    let r = inserted(list, y);
    assert forall|i: int, j: int| 0 <= i < j < r.len() implies !same_identity(r[i], r[j]) by {
        let a = if i < p {
            i
        } else {
            i - 1
        };
        let b = if j < p {
            j
        } else {
            j - 1
        };
        if i == p {
            assert(r[j] == list[b]);
            assert(!same_identity(list[b], y));
        } else if j == p {
            assert(r[i] == list[a]);
            assert(!same_identity(list[a], y));
        } else {
            assert(r[i] == list[a]);
            assert(r[j] == list[b]);
        }
    }
}

/// Sorting keeps records unique.
pub proof fn lemma_sorted_keeps_unique(list: Seq<ConnectionConfigView>)
    requires
        unique(list),
    ensures
        unique(sorted(list)),
    decreases list.len(),
{
    if list.len() > 0 {
        let rest = list.drop_last();
        let last = list.last();
        assert forall|i: int, j: int| 0 <= i < j < rest.len() implies !same_identity(
            rest[i],
            rest[j],
        ) by {
            assert(rest[i] == list[i] && rest[j] == list[j]);
        }
        lemma_sorted_keeps_unique(rest);
        assert forall|k: int| 0 <= k < rest.len() implies !same_identity(
            #[trigger] rest[k],
            last,
        ) by {
            assert(rest[k] == list[k]);
            assert(!same_identity(list[k], list[list.len() - 1]));
        }
        lemma_sorted_absent(rest, last);
        lemma_inserted_unique(sorted(rest), last);
    }
}

/// The store is keyed by server, port and nickname: where no two saved
/// records name the same connection, none do after a record was saved.
pub proof fn lemma_upserted_keeps_unique(list: Seq<ConnectionConfigView>, x: ConnectionConfigView)
    requires
        unique(list),
    ensures
        unique(upserted(list, x)),
{
    lemma_position_of(list, x, 0);
    let at = position_of(list, x, 0);
    let changed = if 0 <= at < list.len() {
        list.update(at, x)
    } else {
        list.push(x)
    };
    assert forall|i: int, j: int| 0 <= i < j < changed.len() implies !same_identity(
        changed[i],
        changed[j],
    ) by {
        if at < list.len() {
            if i == at {
                assert(!same_identity(list[at], list[j]));
            } else if j == at {
                assert(!same_identity(list[i], list[at]));
            } else {
                assert(!same_identity(list[i], list[j]));
            }
        } else {
            if j == list.len() {
                assert(!same_identity(list[i], x));
            } else {
                assert(!same_identity(list[i], list[j]));
            }
        }
    }
    lemma_sorted_keeps_unique(changed);
}

fn is_text_before(a: &Vec<char>, b: &Vec<char>) -> (r: bool)
    ensures
        r == text_before(a@, b@),
{
    let mut i: usize = 0;
    loop
        invariant
            i <= a.len(),
            i <= b.len(),
            text_before(a@, b@) == text_before_from(a@, b@, i as int),
        decreases a.len() - i,
    {
        if i >= b.len() {
            return false;
        }
        if i >= a.len() {
            return true;
        }
        if a[i] != b[i] {
            return (a[i] as u32) < (b[i] as u32);
        }
        i += 1;
    }
}

fn is_sorted_before(x: &ConnectionConfig, y: &ConnectionConfig) -> (r: bool)
    ensures
        r == sorts_before(x@, y@),
{
    let xs = chars_of(x.server.as_str());
    let ys = chars_of(y.server.as_str());
    if is_text_before(&xs, &ys) {
        return true;
    }
    if !chars_equal(&xs, &ys) {
        return false;
    }
    if x.port != y.port {
        return x.port < y.port;
    }
    let xn = chars_of(x.nickname.as_str());
    let yn = chars_of(y.nickname.as_str());
    is_text_before(&xn, &yn)
}

fn is_same_identity(x: &ConnectionConfig, y: &ConnectionConfig) -> (r: bool)
    ensures
        r == same_identity(x@, y@),
{
    x.server == y.server && x.port == y.port && x.nickname == y.nickname
}

fn sort_records(list: &Vec<ConnectionConfig>) -> (out: Vec<ConnectionConfig>)
    ensures
        out.deep_view() == sorted(list.deep_view()),
{
    let mut out: Vec<ConnectionConfig> = Vec::new();
    let mut i: usize = 0;
    while i < list.len()
        invariant
            i <= list.len(),
            out.deep_view() == sorted(list.deep_view().take(i as int)),
        decreases list.len() - i,
    {
        let x = list[i].duplicate();
        let ghost done = out.deep_view();
        let mut p: usize = 0;
        while p < out.len() && !is_sorted_before(&x, &out[p])
            invariant
                p <= out.len(),
                out.deep_view() == done,
                place_of(done, x@, 0) == place_of(done, x@, p as int),
            decreases out.len() - p,
        {
            p += 1;
        }
        out.insert(p, x);
        proof {
            let upto = list.deep_view().take(i + 1);
            assert(upto.drop_last() =~= list.deep_view().take(i as int));
        }
        i += 1;
    }
    assert(list.deep_view().take(list.len() as int) =~= list.deep_view());
    out
}

/// The saved connections.
pub struct ConfigStore {
    connections: Vec<ConnectionConfig>,
}

impl View for ConfigStore {
    type V = Seq<ConnectionConfigView>;

    closed spec fn view(&self) -> Seq<ConnectionConfigView> {
        self.connections.deep_view()
    }
}

impl ConfigStore {
    /// A store that holds the given records, as they were loaded.
    pub fn new(connections: Vec<ConnectionConfig>) -> (store: ConfigStore)
        ensures
            store@ == connections.deep_view(),
    {
        ConfigStore { connections }
    }

    /// The saved records, in the order in which they are kept.
    pub fn list(&self) -> (records: Vec<ConnectionConfig>)
        ensures
            records.deep_view() == self@,
    {
        let mut records: Vec<ConnectionConfig> = Vec::new();
        let mut i: usize = 0;
        while i < self.connections.len()
            invariant
                i <= self.connections.len(),
                records.deep_view() =~= self@.take(i as int),
            decreases self.connections.len() - i,
        {
            let ghost before = records.deep_view();
            let record = self.connections[i].duplicate();
            records.push(record);
            assert(records.deep_view() =~= before.push(record@));
            i += 1;
        }
        records
    }

    /// Saves a record: it replaces the first record that names the same
    /// connection, or is added when there is none, and the list is sorted by
    /// server, port and nickname.
    pub fn upsert(&mut self, config: &ConnectionConfig)
        ensures
            final(self)@ == upserted(old(self)@, config@),
    {
        let mut at: usize = 0;
        while at < self.connections.len() && !is_same_identity(&self.connections[at], config)
            invariant
                at <= self.connections.len(),
                self@ == old(self)@,
                position_of(self@, config@, 0) == position_of(self@, config@, at as int),
            decreases self.connections.len() - at,
        {
            at += 1;
        }
        let ghost before = self@;
        let record = config.duplicate();
        if at < self.connections.len() {
            self.connections[at] = record;
            assert(self@ =~= before.update(at as int, config@));
        } else {
            self.connections.push(record);
            assert(self@ =~= before.push(config@));
        }
        self.connections = sort_records(&self.connections);
    }
}

} // verus!
