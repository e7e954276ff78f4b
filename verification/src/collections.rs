use crate::address::Address;
use vstd::prelude::*;

verus! {

// ---------------------------------------------------------------------------
// Keyed sequences: the mathematical model of the maps below.
//
// A map is modelled by the sequence of its entries in the order in which their
// keys were first set. All the functions here are total; they describe a map
// only where the keys are pairwise distinct.
// ---------------------------------------------------------------------------

/// No key occurs in two entries.
pub open spec fn distinct_keys<K, V>(s: Seq<(K, V)>) -> bool {
    forall|i: int, j: int| 0 <= i < j < s.len() ==> (#[trigger] s[i]).0 != (#[trigger] s[j]).0
}

/// Some entry has key `k`.
pub open spec fn has_key<K, V>(s: Seq<(K, V)>, k: K) -> bool {
    exists|i: int| 0 <= i < s.len() && (#[trigger] s[i]).0 == k
}

/// The position of an entry with key `k`, where there is one.
pub open spec fn key_index<K, V>(s: Seq<(K, V)>, k: K) -> int {
    choose|i: int| 0 <= i < s.len() && (#[trigger] s[i]).0 == k
}

/// The value stored under `k`, where there is one.
pub open spec fn value_of<K, V>(s: Seq<(K, V)>, k: K) -> V {
    s[key_index(s, k)].1
}

/// The value stored under `k`, if any.
pub open spec fn lookup<K, V>(s: Seq<(K, V)>, k: K) -> Option<V> {
    if has_key(s, k) {
        Some(value_of(s, k))
    } else {
        None
    }
}

/// `s` after storing `v` under `k`: the entry of `k` is replaced in place, or
/// a new entry is appended.
pub open spec fn put<K, V>(s: Seq<(K, V)>, k: K, v: V) -> Seq<(K, V)> {
    if has_key(s, k) {
        s.update(key_index(s, k), (k, v))
    } else {
        s.push((k, v))
    }
}

/// With distinct keys, the entry at position `i` is the one `key_index` finds.
pub proof fn lemma_key_index_unique<K, V>(s: Seq<(K, V)>, i: int)
    requires
        distinct_keys(s),
        0 <= i < s.len(),
    ensures
        has_key(s, s[i].0),
        key_index(s, s[i].0) == i,
        value_of(s, s[i].0) == s[i].1,
{
    let k = s[i].0;
    assert(has_key(s, k));
    let j = key_index(s, k);
    assert(0 <= j < s.len() && s[j].0 == k);
    if j < i {
        assert(s[j].0 != s[i].0);
    } else if i < j {
        assert(s[i].0 != s[j].0);
    }
}

/// What `put` does to a map: the keys stay distinct, `k` now maps to `v`, and
/// every other key keeps its value or its absence.
pub proof fn lemma_put<K, V>(s: Seq<(K, V)>, k: K, v: V)
    requires
        distinct_keys(s),
    ensures
        distinct_keys(put(s, k, v)),
        lookup(put(s, k, v), k) == Some(v),
        forall|other: K| other != k ==> lookup(put(s, k, v), other) == lookup(s, other),
        has_key(s, k) ==> put(s, k, v).len() == s.len(),
        !has_key(s, k) ==> put(s, k, v).len() == s.len() + 1,
{
    let t = put(s, k, v);
    if has_key(s, k) {
        let p = key_index(s, k);
        assert(0 <= p < s.len() && s[p].0 == k);
        assert forall|i: int, j: int| 0 <= i < j < t.len() implies (#[trigger] t[i]).0 != (
        #[trigger] t[j]).0 by {
            assert(t[i].0 == s[i].0);
            assert(t[j].0 == s[j].0);
            assert(s[i].0 != s[j].0);
        }
        assert(t[p].0 == k);
        lemma_key_index_unique(t, p);
        assert forall|other: K| other != k implies lookup(t, other) == lookup(s, other) by {
            if has_key(s, other) {
                let q = key_index(s, other);
                assert(0 <= q < s.len() && s[q].0 == other);
                assert(q != p);
                assert(t[q] == s[q]);
                lemma_key_index_unique(t, q);
            } else {
                if has_key(t, other) {
                    let q = key_index(t, other);
                    assert(0 <= q < t.len() && t[q].0 == other);
                    assert(q != p);
                    assert(s[q].0 == other);
                    assert(false);
                }
            }
        }
    } else {
        let n = s.len() as int;
        assert(t.len() == n + 1);
        assert(t[n] == (k, v));
        assert forall|i: int, j: int| 0 <= i < j < t.len() implies (#[trigger] t[i]).0 != (
        #[trigger] t[j]).0 by {
            if j < n {
                assert(t[i] == s[i] && t[j] == s[j]);
                assert(s[i].0 != s[j].0);
            } else {
                assert(t[i] == s[i]);
                if s[i].0 == k {
                    assert(has_key(s, k));
                }
            }
        }
        lemma_key_index_unique(t, n);
        assert forall|other: K| other != k implies lookup(t, other) == lookup(s, other) by {
            if has_key(s, other) {
                let q = key_index(s, other);
                assert(0 <= q < s.len() && s[q].0 == other);
                assert(t[q] == s[q]);
                lemma_key_index_unique(t, q);
            } else {
                if has_key(t, other) {
                    let q = key_index(t, other);
                    assert(0 <= q < t.len() && t[q].0 == other);
                    assert(q != n);
                    assert(s[q].0 == other);
                    assert(false);
                }
            }
        }
    }
}

/// `s` with every value replaced by what `f` makes of it.
pub open spec fn map_values<K, V, W>(s: Seq<(K, V)>, f: spec_fn(V) -> W) -> Seq<(K, W)> {
    Seq::new(s.len(), |i: int| (s[i].0, f(s[i].1)))
}

/// Mapping the values of a map keeps its keys, and maps the value of each.
pub proof fn lemma_map_values<K, V, W>(s: Seq<(K, V)>, f: spec_fn(V) -> W)
    ensures
        map_values(s, f).len() == s.len(),
        distinct_keys(map_values(s, f)) == distinct_keys(s),
        forall|k: K| #[trigger] has_key(map_values(s, f), k) == has_key(s, k),
        distinct_keys(s) ==> forall|k: K|
            has_key(s, k) ==> #[trigger] key_index(map_values(s, f), k) == key_index(s, k),
        distinct_keys(s) ==> forall|k: K|
            has_key(s, k) ==> #[trigger] value_of(map_values(s, f), k) == f(value_of(s, k)),
{
    let t = map_values(s, f);
    assert forall|k: K| #[trigger] has_key(t, k) == has_key(s, k) by {
        if has_key(t, k) {
            let i = key_index(t, k);
            assert(s[i].0 == k);
        }
        if has_key(s, k) {
            let i = key_index(s, k);
            assert(t[i].0 == k);
        }
    }
    if distinct_keys(s) {
        assert forall|i: int, j: int| 0 <= i < j < t.len() implies (#[trigger] t[i]).0 != (
        #[trigger] t[j]).0 by {
            assert(s[i].0 != s[j].0);
        }
        assert forall|k: K| has_key(s, k) implies #[trigger] key_index(t, k) == key_index(
            s,
            k,
        ) by {
            let i = key_index(s, k);
            assert(t[i].0 == k);
            lemma_key_index_unique(t, i);
        }
        assert forall|k: K| has_key(s, k) implies #[trigger] value_of(t, k) == f(
            value_of(s, k),
        ) by {
            let i = key_index(s, k);
            assert(t[i].0 == k);
            lemma_key_index_unique(t, i);
        }
    }
    if distinct_keys(t) {
        assert forall|i: int, j: int| 0 <= i < j < s.len() implies (#[trigger] s[i]).0 != (
        #[trigger] s[j]).0 by {
            assert(t[i].0 != t[j].0);
        }
    }
}

/// Mapping the values after a `put` is a `put` of the mapped value.
pub proof fn lemma_map_values_put<K, V, W>(s: Seq<(K, V)>, f: spec_fn(V) -> W, k: K, v: V)
    requires
        distinct_keys(s),
    ensures
        map_values(put(s, k, v), f) == put(map_values(s, f), k, f(v)),
{
    lemma_map_values(s, f);
    assert(has_key(map_values(s, f), k) == has_key(s, k));
    if has_key(s, k) {
        assert(key_index(map_values(s, f), k) == key_index(s, k));
    }
    assert(map_values(put(s, k, v), f) =~= put(map_values(s, f), k, f(v)));
}

/// Storing under a key that is in use changes one entry in place: no key
/// moves, comes or goes.
pub proof fn lemma_put_existing<K, V>(s: Seq<(K, V)>, k: K, v: V)
    requires
        distinct_keys(s),
        has_key(s, k),
    ensures
        put(s, k, v).len() == s.len(),
        distinct_keys(put(s, k, v)),
        0 <= key_index(s, k) < s.len(),
        key_index(put(s, k, v), k) == key_index(s, k),
        put(s, k, v)[key_index(s, k)] == (k, v),
        forall|i: int| 0 <= i < s.len() ==> (#[trigger] put(s, k, v)[i]).0 == s[i].0,
        forall|i: int| 0 <= i < s.len() && i != key_index(s, k) ==> #[trigger] put(s, k, v)[i] == s[i],
        forall|x: K| #[trigger] has_key(put(s, k, v), x) == has_key(s, x),
        value_of(put(s, k, v), k) == v,
        forall|x: K| x != k && has_key(s, x) ==> #[trigger] value_of(put(s, k, v), x) == value_of(s, x),
{
    lemma_put(s, k, v);
    let t = put(s, k, v);
    let p = key_index(s, k);
    assert(s[p].0 == k);
    assert(t[p].0 == k);
    lemma_key_index_unique(t, p);
    assert forall|x: K| #[trigger] has_key(t, x) == has_key(s, x) by {
        if x != k {
            assert(lookup(t, x) == lookup(s, x));
        }
    }
    assert forall|x: K| x != k && has_key(s, x) implies #[trigger] value_of(t, x) == value_of(
        s,
        x,
    ) by {
        assert(lookup(t, x) == lookup(s, x));
    }
}

/// Storing under a key that is not in use appends one entry.
pub proof fn lemma_put_new<K, V>(s: Seq<(K, V)>, k: K, v: V)
    requires
        distinct_keys(s),
        !has_key(s, k),
    ensures
        put(s, k, v) == s.push((k, v)),
        distinct_keys(put(s, k, v)),
        forall|x: K| #[trigger] has_key(put(s, k, v), x) == (x == k || has_key(s, x)),
        value_of(put(s, k, v), k) == v,
        forall|x: K| x != k && has_key(s, x) ==> #[trigger] value_of(put(s, k, v), x) == value_of(s, x),
{
    lemma_put(s, k, v);
    let t = put(s, k, v);
    assert(lookup(t, k) == Some(v));
    assert forall|x: K| #[trigger] has_key(t, x) == (x == k || has_key(s, x)) by {
        if x != k {
            assert(lookup(t, x) == lookup(s, x));
        }
    }
    assert forall|x: K| x != k && has_key(s, x) implies #[trigger] value_of(t, x) == value_of(
        s,
        x,
    ) by {
        assert(lookup(t, x) == lookup(s, x));
    }
}

/// Storing the value that a key already has changes nothing.
pub proof fn lemma_put_same<K, V>(s: Seq<(K, V)>, k: K)
    requires
        distinct_keys(s),
        has_key(s, k),
    ensures
        put(s, k, value_of(s, k)) == s,
{
    let p = key_index(s, k);
    assert(s[p].0 == k);
    assert(put(s, k, value_of(s, k)) =~= s);
}

/// Storing twice under one key is storing the second value.
pub proof fn lemma_put_twice<K, V>(s: Seq<(K, V)>, k: K, v: V, w: V)
    requires
        distinct_keys(s),
    ensures
        put(put(s, k, v), k, w) == put(s, k, w),
{
    lemma_put(s, k, v);
    let t = put(s, k, v);
    assert(has_key(t, k));
    if has_key(s, k) {
        let p = key_index(s, k);
        assert(t[p].0 == k);
        lemma_key_index_unique(t, p);
        assert(put(t, k, w) =~= put(s, k, w));
    } else {
        let n = s.len() as int;
        assert(t[n].0 == k);
        lemma_key_index_unique(t, n);
        assert(put(t, k, w) =~= put(s, k, w));
    }
}

// ---------------------------------------------------------------------------
// Lists of addresses
// ---------------------------------------------------------------------------

/// No address occurs twice in `s`.
pub open spec fn distinct(s: Seq<Address>) -> bool {
    forall|i: int, j: int| 0 <= i < j < s.len() ==> s[i] != s[j]
}

/// The first position at which `who` occurs in `s`, where it occurs.
pub open spec fn first_position(s: Seq<Address>, who: Address) -> int {
    choose|i: int| 0 <= i < s.len() && s[i] == who && forall|j: int| 0 <= j < i ==> s[j] != who
}

/// `s` without the first occurrence of `who`.
pub open spec fn remove_address(s: Seq<Address>, who: Address) -> Seq<Address> {
    if s.contains(who) {
        s.remove(first_position(s, who))
    } else {
        s
    }
}

/// The first position of `who` is the one position that holds `who` and has
/// no `who` before it.
pub proof fn lemma_first_position(s: Seq<Address>, who: Address, i: int)
    requires
        0 <= i < s.len(),
        s[i] == who,
        forall|j: int| 0 <= j < i ==> s[j] != who,
    ensures
        s.contains(who),
        first_position(s, who) == i,
{
    let p = first_position(s, who);
    assert(0 <= p < s.len() && s[p] == who && forall|j: int| 0 <= j < p ==> s[j] != who);
    if p < i {
        assert(s[p] != who);
    }
}

/// Appending an address that a list without repetition lacks leaves it without
/// repetition.
pub proof fn lemma_push_address(s: Seq<Address>, who: Address)
    requires
        distinct(s),
        !s.contains(who),
    ensures
        distinct(s.push(who)),
        forall|other: Address| s.push(who).contains(other) == (other == who || s.contains(other)),
{
    let t = s.push(who);
    assert forall|i: int, j: int| 0 <= i < j < t.len() implies t[i] != t[j] by {
        if j == s.len() {
            assert(t[i] == s[i]);
            assert(s.contains(s[i]));
        } else {
            assert(t[i] == s[i] && t[j] == s[j]);
        }
    }
    assert forall|other: Address| t.contains(other) == (other == who || s.contains(other)) by {
        if t.contains(other) {
            let i = choose|i: int| 0 <= i < t.len() && t[i] == other;
            if i < s.len() {
                assert(s[i] == other);
            }
        }
        if s.contains(other) {
            let i = choose|i: int| 0 <= i < s.len() && s[i] == other;
            assert(t[i] == other);
        }
        if other == who {
            assert(t[s.len() as int] == who);
        }
    }
}

/// Removing an address from a list without repetition leaves a list without
/// repetition that lacks the address and holds all the others.
pub proof fn lemma_remove_address(s: Seq<Address>, who: Address)
    requires
        distinct(s),
    ensures
        distinct(remove_address(s, who)),
        !remove_address(s, who).contains(who),
        forall|other: Address|
            other != who ==> remove_address(s, who).contains(other) == s.contains(other),
{
    let t = remove_address(s, who);
    if s.contains(who) {
        let p = first_position(s, who);
        assert(0 <= p < s.len() && s[p] == who);
        assert forall|i: int| 0 <= i < t.len() implies #[trigger] t[i] == s[if i < p {
            i
        } else {
            i + 1
        }] by {}
        assert forall|i: int, j: int| 0 <= i < j < t.len() implies t[i] != t[j] by {
            let si = if i < p { i } else { i + 1 };
            let sj = if j < p { j } else { j + 1 };
            assert(t[i] == s[si] && t[j] == s[sj]);
        }
        if t.contains(who) {
            let i = choose|i: int| 0 <= i < t.len() && t[i] == who;
            let si = if i < p { i } else { i + 1 };
            assert(t[i] == s[si]);
            if si < p {
                assert(s[si] != s[p]);
            } else {
                assert(s[p] != s[si]);
            }
        }
        assert forall|other: Address| other != who implies t.contains(other) == s.contains(
            other,
        ) by {
            if t.contains(other) {
                let i = choose|i: int| 0 <= i < t.len() && t[i] == other;
                let si = if i < p { i } else { i + 1 };
                assert(s[si] == other);
            }
            if s.contains(other) {
                let i = choose|i: int| 0 <= i < s.len() && s[i] == other;
                let ti = if i < p { i } else { i - 1 };
                assert(t[ti] == other);
            }
        }
    }
}

/// The first position of `who` in `list`, if it occurs there.
pub fn first_index_of(list: &Vec<Address>, who: Address) -> (found: Option<usize>)
    ensures
        found.is_some() == list@.contains(who),
        found matches Some(i) ==> i < list.len() && i == first_position(list@, who) && list@[i as int]
            == who,
{
    let mut i: usize = 0;
    while i < list.len()
        invariant
            i <= list.len(),
            forall|j: int| 0 <= j < i ==> list@[j] != who,
        decreases list.len() - i,
    {
        if list[i] == who {
            proof {
                lemma_first_position(list@, who, i as int);
            }
            return Some(i);
        }
        i = i + 1;
    }
    None
}

/// Whether `who` occurs in `list`.
pub fn contains_address(list: &Vec<Address>, who: Address) -> (found: bool)
    ensures
        found == list@.contains(who),
{
    first_index_of(list, who).is_some()
}

/// Takes the first occurrence of `who` out of `list`, and says whether there
/// was one.
pub fn remove_first(list: &mut Vec<Address>, who: Address) -> (removed: bool)
    ensures
        removed == old(list)@.contains(who),
        final(list)@ == remove_address(old(list)@, who),
{
    match first_index_of(list, who) {
        Some(i) => {
            let taken = list.remove(i);
            true
        },
        None => false,
    }
}

/// Whether no address occurs twice in `list`.
pub fn is_distinct(list: &Vec<Address>) -> (ok: bool)
    ensures
        ok == distinct(list@),
{
    let mut i: usize = 0;
    while i < list.len()
        invariant
            i <= list.len(),
            forall|a: int, b: int| 0 <= a < b < i ==> list@[a] != list@[b],
        decreases list.len() - i,
    {
        let mut j: usize = 0;
        while j < i
            invariant
                j <= i,
                i < list.len(),
                forall|a: int| 0 <= a < j ==> list@[a] != list@[i as int],
            decreases i - j,
        {
            if list[j] == list[i] {
                return false;
            }
            j = j + 1;
        }
        i = i + 1;
    }
    true
}

/// A copy of `list`.
pub fn copy_addresses(list: &Vec<Address>) -> (copy: Vec<Address>)
    ensures
        copy@ == list@,
{
    let mut copy: Vec<Address> = Vec::new();
    let mut i: usize = 0;
    while i < list.len()
        invariant
            i <= list.len(),
            copy@ == list@.take(i as int),
        decreases list.len() - i,
    {
        copy.push(list[i]);
        assert(list@.take(i + 1) =~= list@.take(i as int).push(list@[i as int]));
        i = i + 1;
    }
    assert(list@.take(list@.len() as int) =~= list@);
    copy
}

/// Every address of `list` occurs in `within`.
pub open spec fn all_in(list: Seq<Address>, within: Seq<Address>) -> bool {
    forall|i: int| 0 <= i < list.len() ==> within.contains(#[trigger] list[i])
}

/// No address of `list` occurs in `within`.
pub open spec fn none_in(list: Seq<Address>, within: Seq<Address>) -> bool {
    forall|i: int| 0 <= i < list.len() ==> !within.contains(#[trigger] list[i])
}

/// Decides `all_in`.
pub fn all_listed(list: &Vec<Address>, within: &Vec<Address>) -> (ok: bool)
    ensures
        ok == all_in(list@, within@),
{
    let mut i: usize = 0;
    while i < list.len()
        invariant
            i <= list.len(),
            forall|j: int| 0 <= j < i ==> within@.contains(#[trigger] list@[j]),
        decreases list.len() - i,
    {
        if !contains_address(within, list[i]) {
            return false;
        }
        i = i + 1;
    }
    true
}

/// Decides `none_in`.
pub fn none_listed(list: &Vec<Address>, within: &Vec<Address>) -> (ok: bool)
    ensures
        ok == none_in(list@, within@),
{
    let mut i: usize = 0;
    while i < list.len()
        invariant
            i <= list.len(),
            forall|j: int| 0 <= j < i ==> !within@.contains(#[trigger] list@[j]),
        decreases list.len() - i,
    {
        if contains_address(within, list[i]) {
            return false;
        }
        i = i + 1;
    }
    true
}

/// `first` followed by `second`, as a new list.
pub fn concat_addresses(first: &Vec<Address>, second: &Vec<Address>) -> (both: Vec<Address>)
    ensures
        both@ == first@ + second@,
{
    let mut both = copy_addresses(first);
    let mut i: usize = 0;
    while i < second.len()
        invariant
            i <= second.len(),
            both@ == first@ + second@.take(i as int),
        decreases second.len() - i,
    {
        both.push(second[i]);
        assert(second@.take(i + 1) =~= second@.take(i as int).push(second@[i as int]));
        assert(first@ + second@.take(i + 1) =~= (first@ + second@.take(i as int)).push(
            second@[i as int],
        ));
        i = i + 1;
    }
    assert(second@.take(second@.len() as int) =~= second@);
    both
}

// ---------------------------------------------------------------------------
// Lists of strings
// ---------------------------------------------------------------------------

/// The texts of a list of strings, in order.
pub open spec fn texts(s: Seq<String>) -> Seq<Seq<char>> {
    Seq::new(s.len(), |i: int| s[i]@)
}

/// Whether a string with the text of `name` occurs in `list`.
pub fn contains_name(list: &Vec<String>, name: &String) -> (found: bool)
    ensures
        found == texts(list@).contains(name@),
{
    let mut i: usize = 0;
    while i < list.len()
        invariant
            i <= list.len(),
            forall|j: int| 0 <= j < i ==> texts(list@)[j] != name@,
        decreases list.len() - i,
    {
        if list[i] == *name {
            assert(texts(list@)[i as int] == name@);
            return true;
        }
        i = i + 1;
    }
    false
}

/// No text of `list` occurs in `within`.
pub open spec fn no_text_in(list: Seq<Seq<char>>, within: Seq<Seq<char>>) -> bool {
    forall|i: int| 0 <= i < list.len() ==> !within.contains(#[trigger] list[i])
}

/// Decides `no_text_in`.
pub fn no_name_listed(list: &Vec<String>, within: &Vec<String>) -> (ok: bool)
    ensures
        ok == no_text_in(texts(list@), texts(within@)),
{
    let mut i: usize = 0;
    while i < list.len()
        invariant
            i <= list.len(),
            forall|j: int| 0 <= j < i ==> !texts(within@).contains(#[trigger] texts(list@)[j]),
        decreases list.len() - i,
    {
        if contains_name(within, &list[i]) {
            assert(texts(list@)[i as int] == list@[i as int]@);
            return false;
        }
        assert(texts(list@)[i as int] == list@[i as int]@);
        i = i + 1;
    }
    true
}

/// `first` followed by `second`, as a new list of strings with the same
/// texts.
pub fn concat_names(first: &Vec<String>, second: &Vec<String>) -> (both: Vec<String>)
    ensures
        texts(both@) == texts(first@) + texts(second@),
{
    let mut both: Vec<String> = Vec::new();
    let mut i: usize = 0;
    while i < first.len()
        invariant
            i <= first.len(),
            texts(both@) == texts(first@).take(i as int),
        decreases first.len() - i,
    {
        let ghost before = texts(both@);
        let name = first[i].clone();
        both.push(name);
        assert(texts(both@) =~= before.push(first@[i as int]@));
        assert(texts(first@).take(i + 1) =~= texts(first@).take(i as int).push(
            first@[i as int]@,
        ));
        i = i + 1;
    }
    assert(texts(first@).take(first@.len() as int) =~= texts(first@));
    let mut j: usize = 0;
    while j < second.len()
        invariant
            j <= second.len(),
            texts(both@) == texts(first@) + texts(second@).take(j as int),
        decreases second.len() - j,
    {
        let ghost before = texts(both@);
        let name = second[j].clone();
        both.push(name);
        assert(texts(both@) =~= before.push(second@[j as int]@));
        assert(texts(first@) + texts(second@).take(j + 1) =~= (texts(first@) + texts(second@).take(
            j as int,
        )).push(second@[j as int]@));
        j = j + 1;
    }
    assert(texts(second@).take(second@.len() as int) =~= texts(second@));
    both
}

// ---------------------------------------------------------------------------
// A map keyed by address
// ---------------------------------------------------------------------------

/// A finite map from addresses to values that remembers the order in which
/// its keys were first set. Its view is the sequence of its entries.
pub struct AddressMap<V> {
    entries: Vec<(Address, V)>,
}

impl<V> View for AddressMap<V> {
    type V = Seq<(Address, V)>;

    closed spec fn view(&self) -> Seq<(Address, V)> {
        self.entries@
    }
}

impl<V> AddressMap<V> {
    /// The keys are pairwise distinct. Every map built by the functions below
    /// is well formed.
    pub open spec fn wf(&self) -> bool {
        distinct_keys(self@)
    }

    /// The empty map.
    pub fn new() -> (m: Self)
        ensures
            m@ == Seq::<(Address, V)>::empty(),
            m.wf(),
    {
        AddressMap { entries: Vec::new() }
    }

    /// The map with the entries `entries`, provided that no key occurs in
    /// two of them.
    pub fn from_entries(entries: Vec<(Address, V)>) -> (made: Option<Self>)
        ensures
            made.is_some() == distinct_keys(entries@),
            made matches Some(map) ==> map@ == entries@ && map.wf(),
    {
        let mut i: usize = 0;
        while i < entries.len()
            invariant
                i <= entries.len(),
                forall|a: int, b: int|
                    0 <= a < b < i ==> (#[trigger] entries@[a]).0 != (#[trigger] entries@[b]).0,
            decreases entries.len() - i,
        {
            let mut j: usize = 0;
            while j < i
                invariant
                    j <= i,
                    i < entries.len(),
                    forall|a: int| 0 <= a < j ==> (#[trigger] entries@[a]).0 != entries@[i as int].0,
                decreases i - j,
            {
                if entries[j].0 == entries[i].0 {
                    return None;
                }
                j = j + 1;
            }
            i = i + 1;
        }
        Some(AddressMap { entries })
    }

    /// The number of entries.
    pub fn len(&self) -> (n: usize)
        ensures
            n == self@.len(),
    {
        self.entries.len()
    }

    /// The position of the entry of `key`, if it has one.
    pub fn position(&self, key: Address) -> (found: Option<usize>)
        requires
            self.wf(),
        ensures
            found.is_some() == has_key(self@, key),
            found matches Some(i) ==> i < self@.len() && i == key_index(self@, key) && self@[i as int].0
                == key,
    {
        let mut i: usize = 0;
        while i < self.entries.len()
            invariant
                i <= self.entries.len(),
                self.wf(),
                forall|j: int| 0 <= j < i ==> (#[trigger] self.entries@[j]).0 != key,
            decreases self.entries.len() - i,
        {
            if self.entries[i].0 == key {
                proof {
                    lemma_key_index_unique(self@, i as int);
                }
                return Some(i);
            }
            i = i + 1;
        }
        None
    }

    /// Whether `key` has an entry.
    pub fn contains_key(&self, key: Address) -> (found: bool)
        requires
            self.wf(),
        ensures
            found == has_key(self@, key),
    {
        self.position(key).is_some()
    }

    /// The value stored under `key`, if any.
    pub fn get(&self, key: Address) -> (found: Option<&V>)
        requires
            self.wf(),
        ensures
            found.is_some() == has_key(self@, key),
            found matches Some(v) ==> *v == value_of(self@, key),
    {
        match self.position(key) {
            Some(i) => Some(&self.entries[i].1),
            None => None,
        }
    }

    /// The key and the value at position `i`.
    pub fn entry(&self, i: usize) -> (e: (Address, &V))
        requires
            i < self@.len(),
        ensures
            e.0 == self@[i as int].0,
            *e.1 == self@[i as int].1,
    {
        (self.entries[i].0, &self.entries[i].1)
    }

    /// Stores `value` under `key` and returns what was stored there before.
    pub fn insert(&mut self, key: Address, value: V) -> (previous: Option<V>)
        requires
            old(self).wf(),
        ensures
            final(self)@ == put(old(self)@, key, value),
            final(self).wf(),
            previous == lookup(old(self)@, key),
            lookup(final(self)@, key) == Some(value),
            forall|other: Address|
                other != key ==> lookup(final(self)@, other) == lookup(old(self)@, other),
    {
        proof {
            lemma_put(self@, key, value);
        }
        let ghost before = self@;
        match self.position(key) {
            Some(i) => {
                let replaced = self.entries.remove(i);
                self.entries.insert(i, (key, value));
                assert(self@ =~= before.update(i as int, (key, value)));
                Some(replaced.1)
            },
            None => {
                self.entries.push((key, value));
                None
            },
        }
    }

}

// ---------------------------------------------------------------------------
// A map keyed by text
// ---------------------------------------------------------------------------

/// `entries` with every key taken as its text.
pub open spec fn keyed_by_text<V>(entries: Seq<(String, V)>) -> Seq<(Seq<char>, V)> {
    Seq::new(entries.len(), |i: int| (entries[i].0@, entries[i].1))
}

/// A finite map from strings to values that remembers the order in which its
/// keys were first set. Its view is the sequence of its entries, each key
/// taken as its text.
pub struct NameMap<V> {
    entries: Vec<(String, V)>,
}

impl<V> View for NameMap<V> {
    type V = Seq<(Seq<char>, V)>;

    closed spec fn view(&self) -> Seq<(Seq<char>, V)> {
        keyed_by_text(self.entries@)
    }
}

impl<V> NameMap<V> {
    /// The keys are pairwise distinct. Every map built by the functions below
    /// is well formed.
    pub open spec fn wf(&self) -> bool {
        distinct_keys(self@)
    }

    /// The empty map.
    pub fn new() -> (m: Self)
        ensures
            m@ == Seq::<(Seq<char>, V)>::empty(),
            m.wf(),
    {
        let m = NameMap { entries: Vec::new() };
        assert(m@ =~= Seq::<(Seq<char>, V)>::empty());
        m
    }

    /// The map with the entries `entries`, provided that no key occurs in
    /// two of them.
    pub fn from_entries(entries: Vec<(String, V)>) -> (made: Option<Self>)
        ensures
            made.is_some() == distinct_keys(keyed_by_text(entries@)),
            made matches Some(map) ==> map@ == keyed_by_text(entries@) && map.wf(),
    {
        let ghost view = keyed_by_text(entries@);
        let mut i: usize = 0;
        while i < entries.len()
            invariant
                i <= entries.len(),
                view == keyed_by_text(entries@),
                forall|a: int, b: int|
                    0 <= a < b < i ==> (#[trigger] view[a]).0 != (#[trigger] view[b]).0,
            decreases entries.len() - i,
        {
            let mut j: usize = 0;
            while j < i
                invariant
                    j <= i,
                    i < entries.len(),
                    view == keyed_by_text(entries@),
                    forall|a: int| 0 <= a < j ==> (#[trigger] view[a]).0 != view[i as int].0,
                decreases i - j,
            {
                if entries[j].0 == entries[i].0 {
                    assert(view[j as int].0 == view[i as int].0);
                    return None;
                }
                assert(view[j as int].0 != view[i as int].0);
                j = j + 1;
            }
            i = i + 1;
        }
        Some(NameMap { entries })
    }

    /// The number of entries.
    pub fn len(&self) -> (n: usize)
        ensures
            n == self@.len(),
    {
        self.entries.len()
    }

    /// The position of the entry of `key`, if it has one.
    pub fn position(&self, key: &String) -> (found: Option<usize>)
        requires
            self.wf(),
        ensures
            found.is_some() == has_key(self@, key@),
            found matches Some(i) ==> i < self@.len() && i == key_index(self@, key@) && self@[i as int].0
                == key@,
    {
        let mut i: usize = 0;
        while i < self.entries.len()
            invariant
                i <= self.entries.len(),
                self.wf(),
                self@.len() == self.entries@.len(),
                forall|j: int| 0 <= j < i ==> (#[trigger] self@[j]).0 != key@,
            decreases self.entries.len() - i,
        {
            if self.entries[i].0 == *key {
                proof {
                    assert(self@[i as int].0 == key@);
                    lemma_key_index_unique(self@, i as int);
                }
                return Some(i);
            }
            assert(self@[i as int].0 != key@);
            i = i + 1;
        }
        None
    }

    /// Whether `key` has an entry.
    pub fn contains_key(&self, key: &String) -> (found: bool)
        requires
            self.wf(),
        ensures
            found == has_key(self@, key@),
    {
        self.position(key).is_some()
    }

    /// The value stored under `key`, if any.
    pub fn get(&self, key: &String) -> (found: Option<&V>)
        requires
            self.wf(),
        ensures
            found.is_some() == has_key(self@, key@),
            found matches Some(v) ==> *v == value_of(self@, key@),
    {
        match self.position(key) {
            Some(i) => {
                assert(self@[i as int].1 == self.entries@[i as int].1);
                Some(&self.entries[i].1)
            },
            None => None,
        }
    }

    /// The key and the value at position `i`.
    pub fn entry(&self, i: usize) -> (e: (&String, &V))
        requires
            i < self@.len(),
        ensures
            e.0@ == self@[i as int].0,
            *e.1 == self@[i as int].1,
    {
        (&self.entries[i].0, &self.entries[i].1)
    }

    /// Stores `value` under `key`, replacing what was stored there.
    pub fn insert(&mut self, key: String, value: V)
        requires
            old(self).wf(),
        ensures
            final(self)@ == put(old(self)@, key@, value),
            final(self).wf(),
            lookup(final(self)@, key@) == Some(value),
            forall|other: Seq<char>|
                other != key@ ==> lookup(final(self)@, other) == lookup(old(self)@, other),
    {
        proof {
            lemma_put(self@, key@, value);
        }
        let ghost before = self@;
        match self.position(&key) {
            Some(i) => {
                self.entries.set(i, (key, value));
                assert(self@ =~= before.update(i as int, (key@, value)));
            },
            None => {
                self.entries.push((key, value));
                assert(self@ =~= before.push((key@, value)));
            },
        }
    }

    /// A copy of the map.
    pub fn duplicate(&self) -> (copy: Self) where V: Copy
        ensures
            copy@ == self@,
    {
        let mut entries: Vec<(String, V)> = Vec::new();
        let mut i: usize = 0;
        while i < self.entries.len()
            invariant
                i <= self.entries.len(),
                entries@.len() == i,
                forall|j: int|
                    0 <= j < i ==> (#[trigger] entries@[j]).0@ == self.entries@[j].0@ && entries@[j].1
                        == self.entries@[j].1,
            decreases self.entries.len() - i,
        {
            let key = self.entries[i].0.clone();
            entries.push((key, self.entries[i].1));
            i = i + 1;
        }
        let copy = NameMap { entries };
        assert(copy@ =~= self@);
        copy
    }
}

} // verus!
