//! Tallies over several inputs: in how many of them each item occurs.

use vstd::prelude::*;
use crate::rich::{RichRecord, RichTable};
use crate::strings::MatchString;

verus! {

/// An item that can be told from another and copied.
pub trait Countable: Sized {
    /// What makes the item what it is: two items are the same if and only
    /// if they have the same identity.
    type Identity;

    spec fn identity(&self) -> Self::Identity;

    /// Whether two items are the same.
    fn same(&self, other: &Self) -> (r: bool)
        ensures
            r == (self.identity() == other.identity()),
    ;

    /// Another item that is the same.
    fn duplicate(&self) -> (r: Self)
        ensures
            r.identity() == self.identity(),
    ;
}

impl Countable for RichRecord {
    type Identity = RichRecord;

    open spec fn identity(&self) -> RichRecord {
        *self
    }

    fn same(&self, other: &Self) -> (r: bool) {
        self.build == other.build && self.product == other.product && self.count == other.count
    }

    fn duplicate(&self) -> (r: Self) {
        *self
    }
}

impl Countable for String {
    type Identity = Seq<char>;

    open spec fn identity(&self) -> Seq<char> {
        self@
    }

    fn same(&self, other: &Self) -> (r: bool) {
        *self == *other
    }

    fn duplicate(&self) -> (r: Self) {
        let copy = self.clone();
        copy
    }
}

/// The identities of the items of a list.
pub open spec fn identities<T: Countable>(list: Seq<T>) -> Seq<T::Identity> {
    Seq::new(list.len(), |i: int| list[i].identity())
}

/// The identities of the items of each list.
pub open spec fn all_identities<T: Countable>(lists: Seq<Vec<T>>) -> Seq<Seq<T::Identity>> {
    Seq::new(lists.len(), |k: int| identities(lists[k]@))
}

/// Whether `id` is one of the first `n` of `list`.
pub open spec fn holds<I>(list: Seq<I>, id: I, n: int) -> bool
    decreases n,
{
    if n <= 0 {
        false
    } else {
        holds(list, id, n - 1) || list[n - 1] == id
    }
}

/// In how many of the first `n` lists `id` occurs.
pub open spec fn frequency<I>(lists: Seq<Seq<I>>, id: I, n: int) -> int
    decreases n,
{
    if n <= 0 {
        0
    } else if holds(lists[n - 1], id, lists[n - 1].len() as int) {
        frequency(lists, id, n - 1) + 1
    } else {
        frequency(lists, id, n - 1)
    }
}

/// Whether `tally` counts, for each identity that occurs in the first `n`
/// lists, in how many of them it occurs: once each, and nothing else.
pub open spec fn counts<T: Countable>(
    tally: Seq<(T, u32)>,
    lists: Seq<Seq<T::Identity>>,
    n: int,
) -> bool {
    &&& forall|p: int|
        0 <= p < tally.len() ==> (#[trigger] tally[p]).1 == frequency(
            lists,
            tally[p].0.identity(),
            n,
        ) && tally[p].1 >= 1
    &&& forall|p: int, q: int|
        0 <= p < q < tally.len() ==> (#[trigger] tally[p]).0.identity() != (
        #[trigger] tally[q]).0.identity()
    &&& forall|id: T::Identity| #[trigger]
        frequency(lists, id, n) >= 1 ==> listed(tally, id, tally.len() as int)
}

/// Whether one of the first `n` pairs of `tally` is for the identity `id`.
pub open spec fn listed<T: Countable>(tally: Seq<(T, u32)>, id: T::Identity, n: int) -> bool
    decreases n,
{
    if n <= 0 {
        false
    } else {
        listed(tally, id, n - 1) || tally[n - 1].0.identity() == id
    }
}

/// Whether the counts of `tally` never fall.
pub open spec fn rising<T>(tally: Seq<(T, u32)>) -> bool {
    forall|p: int, q: int| 0 <= p < q < tally.len() ==> (#[trigger] tally[p]).1 <= (
    #[trigger] tally[q]).1
}

/// What `listed` means.
pub proof fn lemma_listed<T: Countable>(tally: Seq<(T, u32)>, id: T::Identity, n: int)
    requires
        0 <= n <= tally.len(),
    ensures
        listed(tally, id, n) <==> exists|p: int|
            0 <= p < n && (#[trigger] tally[p]).0.identity() == id,
    decreases n,
{
    if n > 0 {
        lemma_listed(tally, id, n - 1);
        if listed(tally, id, n) {
            if tally[n - 1].0.identity() == id {
                assert(0 <= n - 1 < n && tally[n - 1].0.identity() == id);
            } else {
                let p = choose|p: int| 0 <= p < n - 1 && (#[trigger] tally[p]).0.identity() == id;
                assert(0 <= p < n && tally[p].0.identity() == id);
            }
        }
    }
}

/// The frequency never exceeds the number of lists.
pub proof fn lemma_frequency_bound<I>(lists: Seq<Seq<I>>, id: I, n: int)
    requires
        0 <= n,
    ensures
        0 <= frequency(lists, id, n) <= n,
    decreases n,
{
    if n > 0 {
        lemma_frequency_bound(lists, id, n - 1);
    }
}

/// Whether `item` is the same as one of the first `n` of `list`.
fn occurs_before<T: Countable>(list: &Vec<T>, item: &T, n: usize) -> (r: bool)
    requires
        n <= list@.len(),
    ensures
        r == holds(identities(list@), item.identity(), n as int),
{
    let mut i: usize = 0;
    while i < n
        invariant
            i <= n <= list@.len(),
            !holds(identities(list@), item.identity(), i as int),
        decreases n - i,
    {
        if list[i].same(item) {
            proof {
                lemma_holds_grows(identities(list@), item.identity(), i + 1, n as int);
            }
            return true;
        }
        i += 1;
    }
    false
}

/// What holds of the first `n` items holds of any more.
pub proof fn lemma_holds_grows<I>(list: Seq<I>, id: I, n: int, m: int)
    requires
        n <= m,
        holds(list, id, n),
    ensures
        holds(list, id, m),
    decreases m - n,
{
    if n < m {
        lemma_holds_grows(list, id, n, m - 1);
    }
}

/// Where `item` stands in the tally, if it does.
fn position_of<T: Countable>(tally: &Vec<(T, u32)>, item: &T) -> (r: Option<usize>)
    ensures
        match r {
            Some(p) => p < tally@.len() && tally@[p as int].0.identity() == item.identity(),
            None => !listed(tally@, item.identity(), tally@.len() as int),
        },
{
    let mut p: usize = 0;
    while p < tally.len()
        invariant
            p <= tally@.len(),
            !listed(tally@, item.identity(), p as int),
        decreases tally@.len() - p,
    {
        if tally[p].0.same(item) {
            return Some(p);
        }
        p += 1;
    }
    None
}

/// In how many of the first `k` lists, and of the first `j` items of list
/// `k`, an item with the identity `id` occurs.
pub open spec fn partial<I>(lists: Seq<Seq<I>>, id: I, k: int, j: int) -> int {
    if holds(lists[k], id, j) {
        frequency(lists, id, k) + 1
    } else {
        frequency(lists, id, k)
    }
}

/// Whether `tally` counts what occurs in the first `k` lists and in the
/// first `j` items of list `k`.
pub open spec fn counts_partly<T: Countable>(
    tally: Seq<(T, u32)>,
    lists: Seq<Seq<T::Identity>>,
    k: int,
    j: int,
) -> bool {
    &&& forall|p: int|
        0 <= p < tally.len() ==> (#[trigger] tally[p]).1 == partial(
            lists,
            tally[p].0.identity(),
            k,
            j,
        ) && tally[p].1 >= 1
    &&& forall|p: int, q: int|
        0 <= p < q < tally.len() ==> (#[trigger] tally[p]).0.identity() != (
        #[trigger] tally[q]).0.identity()
    &&& forall|id: T::Identity| #[trigger]
        partial(lists, id, k, j) >= 1 ==> listed(tally, id, tally.len() as int)
}

/// Counts one more item: the item `j` of list `k`.
fn count_item<T: Countable>(tally: &mut Vec<(T, u32)>, lists: &Vec<Vec<T>>, k: usize, j: usize)
    requires
        k < lists@.len() <= u32::MAX,
        j < lists@[k as int]@.len(),
        counts_partly(old(tally)@, all_identities(lists@), k as int, j as int),
    ensures
        counts_partly(final(tally)@, all_identities(lists@), k as int, j + 1),
{
    let list = &lists[k];
    let item = &list[j];
    let ghost id = item.identity();
    let ghost before = tally@;
    let ghost ids = all_identities(lists@);
    assert(ids[k as int] == identities(lists@[k as int]@));
    assert(identities(lists@[k as int]@)[j as int] == id);
    proof {
        lemma_frequency_bound(ids, id, k as int);
    }
    if occurs_before(list, item, j) {
        proof {
            assert forall|other: T::Identity| #[trigger]
                partial(ids, other, k as int, j + 1) == partial(
                    ids,
                    other,
                    k as int,
                    j as int,
                ) by {}
            assert forall|q: int| 0 <= q < tally@.len() implies (#[trigger] tally@[q]).1
                == partial(ids, tally@[q].0.identity(), k as int, j + 1) && tally@[q].1
                >= 1 by {}
            assert forall|other: T::Identity| #[trigger]
                partial(ids, other, k as int, j + 1) >= 1 implies listed(
                tally@,
                other,
                tally@.len() as int,
            ) by {
                assert(partial(ids, other, k as int, j as int) >= 1);
            }
        }
        return ;
    }
    assert forall|other: T::Identity| other != id implies partial(ids, other, k as int, j + 1)
        == partial(ids, other, k as int, j as int) by {}
    assert(partial(ids, id, k as int, j + 1) == partial(ids, id, k as int, j as int) + 1);
    match position_of(tally, item) {
        Some(p) => {
            let c: u32 = tally[p].1;
            tally.set(p, (item.duplicate(), c + 1));
            proof {
                assert forall|q: int| 0 <= q < tally@.len() implies (#[trigger] tally@[q]).1
                    == partial(ids, tally@[q].0.identity(), k as int, j + 1) && tally@[q].1
                    >= 1 by {
                    if q != p {
                        assert(tally@[q] == before[q]);
                        assert(before[q].0.identity() != before[p as int].0.identity());
                    }
                }
                assert forall|a: int, b: int| 0 <= a < b < tally@.len() implies (
                #[trigger] tally@[a]).0.identity() != (#[trigger] tally@[b]).0.identity() by {
                    assert(tally@[a].0.identity() == before[a].0.identity());
                    assert(tally@[b].0.identity() == before[b].0.identity());
                }
                assert forall|other: T::Identity| #[trigger]
                    partial(ids, other, k as int, j + 1) >= 1 implies listed(
                    tally@,
                    other,
                    tally@.len() as int,
                ) by {
                    lemma_listed(tally@, other, tally@.len() as int);
                    if other == id {
                        assert(tally@[p as int].0.identity() == other);
                    } else {
                        assert(partial(ids, other, k as int, j as int) >= 1);
                        lemma_listed(before, other, before.len() as int);
                        let q = choose|q: int|
                            0 <= q < before.len() && (#[trigger] before[q]).0.identity() == other;
                        assert(tally@[q].0.identity() == other);
                    }
                }
            }
        },
        None => {
            proof {
                // an item that is not listed has not occurred yet
                assert(partial(ids, id, k as int, j as int) < 1);
            }
            tally.push((item.duplicate(), 1));
            proof {
                assert forall|q: int| 0 <= q < tally@.len() implies (#[trigger] tally@[q]).1
                    == partial(ids, tally@[q].0.identity(), k as int, j + 1) && tally@[q].1
                    >= 1 by {
                    if q < before.len() {
                        assert(tally@[q] == before[q]);
                        lemma_listed(before, id, before.len() as int);
                    }
                }
                assert forall|a: int, b: int| 0 <= a < b < tally@.len() implies (
                #[trigger] tally@[a]).0.identity() != (#[trigger] tally@[b]).0.identity() by {
                    assert(tally@[a] == before[a]);
                    if b < before.len() {
                        assert(tally@[b] == before[b]);
                    } else {
                        lemma_listed(before, id, before.len() as int);
                    }
                }
                assert forall|other: T::Identity| #[trigger]
                    partial(ids, other, k as int, j + 1) >= 1 implies listed(
                    tally@,
                    other,
                    tally@.len() as int,
                ) by {
                    lemma_listed(tally@, other, tally@.len() as int);
                    if other == id {
                        assert(tally@[before.len() as int].0.identity() == other);
                    } else {
                        assert(partial(ids, other, k as int, j as int) >= 1);
                        lemma_listed(before, other, before.len() as int);
                        let q = choose|q: int|
                            0 <= q < before.len() && (#[trigger] before[q]).0.identity() == other;
                        assert(tally@[q].0.identity() == other);
                    }
                }
            }
        },
    }
}

/// Counts, for each item that occurs in `lists`, in how many of the lists it
/// occurs. The items come in the order in which they first occur.
fn tally<T: Countable>(lists: &Vec<Vec<T>>) -> (r: Vec<(T, u32)>)
    requires
        lists@.len() <= u32::MAX,
    ensures
        counts(r@, all_identities(lists@), lists@.len() as int),
{
    let mut found: Vec<(T, u32)> = Vec::new();
    let ghost ids = all_identities(lists@);
    let mut k: usize = 0;
    assert(counts(found@, ids, 0)) by {
        assert forall|id: T::Identity| #[trigger] frequency(ids, id, 0) >= 1 implies listed(
            found@,
            id,
            0,
        ) by {}
    }
    while k < lists.len()
        invariant
            k <= lists@.len() <= u32::MAX,
            ids == all_identities(lists@),
            counts(found@, ids, k as int),
        decreases lists@.len() - k,
    {
        let mut j: usize = 0;
        assert(counts_partly(found@, ids, k as int, 0)) by {
            assert forall|p: int| 0 <= p < found@.len() implies (#[trigger] found@[p]).1
                == partial(ids, found@[p].0.identity(), k as int, 0) && found@[p].1 >= 1 by {}
            assert forall|id: T::Identity| #[trigger]
                partial(ids, id, k as int, 0) >= 1 implies listed(
                found@,
                id,
                found@.len() as int,
            ) by {
                assert(frequency(ids, id, k as int) >= 1);
            }
        }
        while j < lists[k].len()
            invariant
                k < lists@.len() <= u32::MAX,
                ids == all_identities(lists@),
                j <= lists@[k as int]@.len(),
                counts_partly(found@, ids, k as int, j as int),
            decreases lists@[k as int]@.len() - j,
        {
            count_item(&mut found, lists, k, j);
            j += 1;
        }
        assert(counts(found@, ids, k + 1)) by {
            assert(j == lists@[k as int]@.len());
            assert(ids[k as int].len() == j);
            assert forall|p: int| 0 <= p < found@.len() implies (#[trigger] found@[p]).1
                == frequency(ids, found@[p].0.identity(), k + 1) && found@[p].1 >= 1 by {
                assert(partial(ids, found@[p].0.identity(), k as int, j as int) == frequency(
                    ids,
                    found@[p].0.identity(),
                    k + 1,
                ));
            }
            assert forall|id: T::Identity| #[trigger]
                frequency(ids, id, k + 1) >= 1 implies listed(
                found@,
                id,
                found@.len() as int,
            ) by {
                assert(partial(ids, id, k as int, j as int) == frequency(ids, id, k + 1));
            }
        }
        k += 1;
    }
    found
}

/// Where the pair at `q` stood before the pair at `i` was moved to `pos`.
pub open spec fn moved_from(q: int, i: int, pos: int) -> int {
    if q < pos {
        q
    } else if q == pos {
        i
    } else if q <= i {
        q - 1
    } else {
        q
    }
}

/// Where the pair at `p` stands after the pair at `i` was moved to `pos`.
pub open spec fn moved_to(p: int, i: int, pos: int) -> int {
    if p < pos {
        p
    } else if p < i {
        p + 1
    } else if p == i {
        pos
    } else {
        p
    }
}

/// Moving one pair to the left keeps what the tally counts.
proof fn lemma_move_keeps_counts<T: Countable>(
    before: Seq<(T, u32)>,
    lists: Seq<Seq<T::Identity>>,
    n: int,
    i: int,
    pos: int,
)
    requires
        counts(before, lists, n),
        0 <= pos <= i < before.len(),
    ensures
        counts(before.remove(i).insert(pos, before[i]), lists, n),
        before.remove(i).insert(pos, before[i]).len() == before.len(),
        forall|q: int|
            0 <= q < before.len() ==> #[trigger] before.remove(i).insert(pos, before[i])[q]
                == before[moved_from(q, i, pos)],
{
    let after = before.remove(i).insert(pos, before[i]);
    assert forall|q: int| 0 <= q < before.len() implies #[trigger] after[q] == before[moved_from(
        q,
        i,
        pos,
    )] by {}
    assert forall|p: int, q: int| 0 <= p < q < after.len() implies (
    #[trigger] after[p]).0.identity() != (#[trigger] after[q]).0.identity() by {
        let a = moved_from(p, i, pos);
        let b = moved_from(q, i, pos);
        assert(after[p] == before[a]);
        assert(after[q] == before[b]);
        if a < b {
            assert(before[a].0.identity() != before[b].0.identity());
        } else {
            assert(before[b].0.identity() != before[a].0.identity());
        }
    }
    assert forall|id: T::Identity| #[trigger] frequency(lists, id, n) >= 1 implies listed(
        after,
        id,
        after.len() as int,
    ) by {
        lemma_listed(before, id, before.len() as int);
        lemma_listed(after, id, after.len() as int);
        let p = choose|p: int| 0 <= p < before.len() && (#[trigger] before[p]).0.identity() == id;
        let q = moved_to(p, i, pos);
        assert(after[q] == before[moved_from(q, i, pos)]);
        assert(after[q].0.identity() == id);
    }
    assert forall|q: int| 0 <= q < after.len() implies (#[trigger] after[q]).1 == frequency(
        lists,
        after[q].0.identity(),
        n,
    ) && after[q].1 >= 1 by {
        assert(after[q] == before[moved_from(q, i, pos)]);
    }
}

/// Sorts a tally by its counts, smallest first. Pairs with the same count
/// keep their order.
fn sort_tally<T: Countable>(found: &mut Vec<(T, u32)>, lists: &Vec<Vec<T>>)
    requires
        counts(old(found)@, all_identities(lists@), lists@.len() as int),
    ensures
        counts(final(found)@, all_identities(lists@), lists@.len() as int),
        rising(final(found)@),
{
    let n: usize = found.len();
    let mut i: usize = 1;
    while i < n
        invariant
            n == found@.len(),
            1 <= i || n == 0,
            counts(found@, all_identities(lists@), lists@.len() as int),
            forall|a: int, b: int|
                0 <= a < b < i && b < n ==> (#[trigger] found@[a]).1 <= (#[trigger] found@[b]).1,
        decreases n - i,
    {
        let count: u32 = found[i].1;
        let mut pos: usize = 0;
        while pos < i && found[pos].1 <= count
            invariant
                pos <= i < n,
                n == found@.len(),
                forall|a: int| 0 <= a < pos ==> (#[trigger] found@[a]).1 <= count,
            decreases i - pos,
        {
            pos += 1;
        }
        let ghost before = found@;
        proof {
            lemma_move_keeps_counts(
                before,
                all_identities(lists@),
                lists@.len() as int,
                i as int,
                pos as int,
            );
        }
        let moved = found.remove(i);
        found.insert(pos, moved);
        proof {
            assert forall|a: int, b: int| 0 <= a < b < i + 1 && b < n implies (
            #[trigger] found@[a]).1 <= (#[trigger] found@[b]).1 by {
                let x = moved_from(a, i as int, pos as int);
                let y = moved_from(b, i as int, pos as int);
                assert(found@[a] == before[x]);
                assert(found@[b] == before[y]);
                if b == pos {
                } else if a == pos {
                    assert(before[pos as int].1 > count);
                    if y > pos {
                        assert(before[pos as int].1 <= before[y].1);
                    }
                } else {
                    assert(before[x].1 <= before[y].1);
                }
            }
        }
        i += 1;
    }
}

/// What can be compared across inputs: in how many of them each item occurs.
pub trait Comparable<T, U> {
    /// For each item that occurs in the inputs, the item and the number of
    /// inputs that it occurs in, the rarest first.
    fn compare(s: Vec<T>) -> Vec<(U, u32)>;
}

/// The records of each table.
pub open spec fn table_records(tables: Seq<RichTable>) -> Seq<Seq<RichRecord>> {
    Seq::new(tables.len(), |i: int| tables[i].rich_entries@)
}

/// For each Rich record, in how many of the tables it occurs, the rarest
/// first. More than `u32::MAX` tables are not counted: the result is empty.
pub fn compare_rich(tables: &Vec<RichTable>) -> (r: Vec<(RichRecord, u32)>)
    ensures
        tables@.len() <= u32::MAX ==> counts(r@, table_records(tables@), tables@.len() as int)
            && rising(r@),
        tables@.len() > u32::MAX ==> r@.len() == 0,
{
    if tables.len() > u32::MAX as usize {
        return Vec::new();
    }
    let mut lists: Vec<Vec<RichRecord>> = Vec::new();
    let mut i: usize = 0;
    while i < tables.len()
        invariant
            i <= tables@.len(),
            lists@.len() == i,
            forall|k: int| 0 <= k < i ==> (#[trigger] lists@[k])@ == tables@[k].rich_entries@,
        decreases tables@.len() - i,
    {
        let entries = &tables[i].rich_entries;
        let mut copy: Vec<RichRecord> = Vec::new();
        let mut j: usize = 0;
        while j < entries.len()
            invariant
                j <= entries@.len(),
                copy@ == entries@.subrange(0, j as int),
            decreases entries@.len() - j,
        {
            copy.push(entries[j]);
            assert(entries@.subrange(0, j + 1) =~= entries@.subrange(0, j as int).push(
                entries@[j as int],
            ));
            j += 1;
        }
        assert(entries@.subrange(0, j as int) =~= entries@);
        lists.push(copy);
        i += 1;
    }
    proof {
        assert forall|k: int| 0 <= k < lists@.len() implies #[trigger] all_identities(lists@)[k]
            == table_records(tables@)[k] by {
            assert(identities(lists@[k]@) =~= tables@[k].rich_entries@);
        }
        assert(all_identities(lists@) =~= table_records(tables@));
    }
    let mut found = tally(&lists);
    sort_tally(&mut found, &lists);
    found
}

impl Comparable<RichTable, RichRecord> for RichTable {
    fn compare(s: Vec<RichTable>) -> (r: Vec<(RichRecord, u32)>)
        ensures
            s@.len() <= u32::MAX ==> counts(r@, table_records(s@), s@.len() as int) && rising(r@),
    {
        compare_rich(&s)
    }
}

/// The strings of each input.
pub open spec fn match_texts(inputs: Seq<MatchString>) -> Seq<Seq<Seq<char>>> {
    Seq::new(
        inputs.len(),
        |i: int| Seq::new(inputs[i].view().len(), |j: int| inputs[i].view()[j].0),
    )
}

/// For each string, in how many of the inputs it occurs, the rarest first.
/// More than `u32::MAX` inputs are not counted: the result is empty.
pub fn compare_strings(inputs: &Vec<MatchString>) -> (r: Vec<(String, u32)>)
    ensures
        inputs@.len() <= u32::MAX ==> counts(r@, match_texts(inputs@), inputs@.len() as int)
            && rising(r@),
        inputs@.len() > u32::MAX ==> r@.len() == 0,
{
    if inputs.len() > u32::MAX as usize {
        return Vec::new();
    }
    let mut lists: Vec<Vec<String>> = Vec::new();
    let mut i: usize = 0;
    while i < inputs.len()
        invariant
            i <= inputs@.len(),
            lists@.len() == i,
            forall|k: int|
                0 <= k < i ==> identities((#[trigger] lists@[k])@) == match_texts(inputs@)[k],
        decreases inputs@.len() - i,
    {
        let texts = inputs[i].texts();
        assert(identities(texts@) =~= match_texts(inputs@)[i as int]);
        lists.push(texts);
        i += 1;
    }
    assert(all_identities(lists@) =~= match_texts(inputs@));
    let mut found = tally(&lists);
    sort_tally(&mut found, &lists);
    found
}

impl Comparable<MatchString, String> for MatchString {
    fn compare(s: Vec<MatchString>) -> (r: Vec<(String, u32)>)
        ensures
            s@.len() <= u32::MAX ==> counts(r@, match_texts(s@), s@.len() as int) && rising(r@),
    {
        compare_strings(&s)
    }
}

} // verus!
