//! The order of the pages' lists: a stable sort of rows by composite keys.
//!
//! A key is a list of parts compared in turn; integer parts compare by value
//! and text parts character by character (the order of `String`). Rows with
//! equal keys keep the order they came in, as `slice::sort_by` keeps them.
use vstd::prelude::*;
use crate::text::chars_of;

verus! {

/// One part of a sort key.
pub enum KeyPart {
    Int(i128),
    Text(String),
}

pub enum KeyPartV {
    Int(int),
    Text(Seq<char>),
}

impl View for KeyPart {
    type V = KeyPartV;

    open spec fn view(&self) -> KeyPartV {
        match self {
            KeyPart::Int(n) => KeyPartV::Int(*n as int),
            KeyPart::Text(s) => KeyPartV::Text(s@),
        }
    }
}

pub open spec fn key_view(k: Seq<KeyPart>) -> Seq<KeyPartV> {
    Seq::new(k.len(), |i: int| k[i]@)
}

pub open spec fn keys_view(ks: Seq<Vec<KeyPart>>) -> Seq<Seq<KeyPartV>> {
    Seq::new(ks.len(), |i: int| key_view(ks[i]@))
}

/// `a.cmp(b)` for strings, as -1, 0 or 1.
pub open spec fn text_order(a: Seq<char>, b: Seq<char>) -> int
    decreases a.len(),
{
    if a.len() == 0 {
        if b.len() == 0 {
            0
        } else {
            -1
        }
    } else if b.len() == 0 {
        1
    } else if a[0] < b[0] {
        -1
    } else if a[0] > b[0] {
        1
    } else {
        text_order(a.drop_first(), b.drop_first())
    }
}

pub open spec fn part_order(a: KeyPartV, b: KeyPartV) -> int {
    match (a, b) {
        (KeyPartV::Int(x), KeyPartV::Int(y)) => if x < y {
            -1
        } else if x > y {
            1
        } else {
            0
        },
        (KeyPartV::Text(x), KeyPartV::Text(y)) => text_order(x, y),
        (KeyPartV::Int(_), KeyPartV::Text(_)) => -1,
        (KeyPartV::Text(_), KeyPartV::Int(_)) => 1,
    }
}

/// Keys compare part by part; a key that runs out first is smaller.
pub open spec fn key_order(a: Seq<KeyPartV>, b: Seq<KeyPartV>) -> int
    decreases a.len(),
{
    if a.len() == 0 {
        if b.len() == 0 {
            0
        } else {
            -1
        }
    } else if b.len() == 0 {
        1
    } else if part_order(a[0], b[0]) != 0 {
        part_order(a[0], b[0])
    } else {
        key_order(a.drop_first(), b.drop_first())
    }
}

/// Whether `a` may stand before `b`: ascending, or descending when `desc`.
pub open spec fn in_order(a: Seq<KeyPartV>, b: Seq<KeyPartV>, desc: bool) -> bool {
    if desc {
        key_order(a, b) >= 0
    } else {
        key_order(a, b) <= 0
    }
}

/// `out` is `items` reordered by `perm` (output position to input position),
/// adjacent keys in order, and rows with equal keys in their input order.
pub open spec fn stable_sorted<T>(
    items: Seq<T>,
    keys: Seq<Seq<KeyPartV>>,
    desc: bool,
    out: Seq<T>,
    perm: Seq<int>,
) -> bool {
    &&& out.len() == items.len()
    &&& perm.len() == items.len()
    &&& forall|k: int| 0 <= k < perm.len() ==> 0 <= #[trigger] perm[k] < items.len()
    &&& forall|a: int, b: int| 0 <= a < b < perm.len() ==> perm[a] != perm[b]
    &&& forall|k: int| 0 <= k < out.len() ==> #[trigger] out[k] == items[perm[k]]
    &&& forall|k: int| 0 <= k < out.len() - 1 ==> in_order(keys[#[trigger] perm[k]], keys[perm[k + 1]], desc)
    &&& forall|a: int, b: int|
        0 <= a < b < perm.len() && key_order(keys[perm[a]], keys[perm[b]]) == 0 ==> perm[a] < perm[b]
}

pub fn text_compare(a: &String, b: &String) -> (r: i8)
    ensures
        r as int == text_order(a@, b@),
{
    let x = chars_of(a.as_str());
    let y = chars_of(b.as_str());
    let mut i: usize = 0;
    assert(x@.skip(0) =~= x@);
    assert(y@.skip(0) =~= y@);
    while i < x.len() && i < y.len()
        invariant
            x@ == a@,
            y@ == b@,
            i <= x.len(),
            i <= y.len(),
            text_order(x@, y@) == text_order(x@.skip(i as int), y@.skip(i as int)),
        decreases x.len() - i,
    {
        let cx = x[i];
        let cy = y[i];
        proof {
            assert(x@.skip(i as int)[0] == x@[i as int]);
            assert(y@.skip(i as int)[0] == y@[i as int]);
        }
        if cx < cy {
            return -1;
        }
        if cx > cy {
            return 1;
        }
        proof {
            assert(x@.skip(i as int).drop_first() =~= x@.skip(i + 1));
            assert(y@.skip(i as int).drop_first() =~= y@.skip(i + 1));
        }
        i = i + 1;
    }
    if i < x.len() {
        1
    } else if i < y.len() {
        -1
    } else {
        0
    }
}

fn part_compare(a: &KeyPart, b: &KeyPart) -> (r: i8)
    ensures
        r as int == part_order(a@, b@),
{
    match (a, b) {
        (KeyPart::Int(x), KeyPart::Int(y)) => if *x < *y {
            -1
        } else if *x > *y {
            1
        } else {
            0
        },
        (KeyPart::Text(x), KeyPart::Text(y)) => text_compare(x, y),
        (KeyPart::Int(_), KeyPart::Text(_)) => -1,
        (KeyPart::Text(_), KeyPart::Int(_)) => 1,
    }
}

/// Compares two keys (see `key_order`).
pub fn key_compare(a: &Vec<KeyPart>, b: &Vec<KeyPart>) -> (r: i8)
    ensures
        r as int == key_order(key_view(a@), key_view(b@)),
{
    let ghost av = key_view(a@);
    let ghost bv = key_view(b@);
    let mut i: usize = 0;
    assert(av.skip(0) =~= av);
    assert(bv.skip(0) =~= bv);
    while i < a.len() && i < b.len()
        invariant
            i <= a.len(),
            i <= b.len(),
            av == key_view(a@),
            bv == key_view(b@),
            key_order(av, bv) == key_order(av.skip(i as int), bv.skip(i as int)),
        decreases a.len() - i,
    {
        let c = part_compare(&a[i], &b[i]);
        proof {
            assert(av.skip(i as int)[0] == a@[i as int]@);
            assert(bv.skip(i as int)[0] == b@[i as int]@);
        }
        if c != 0 {
            return c;
        }
        proof {
            assert(av.skip(i as int).drop_first() =~= av.skip(i + 1));
            assert(bv.skip(i as int).drop_first() =~= bv.skip(i + 1));
        }
        i = i + 1;
    }
    if i < a.len() {
        1
    } else if i < b.len() {
        -1
    } else {
        0
    }
}

fn may_precede(a: &Vec<KeyPart>, b: &Vec<KeyPart>, desc: bool) -> (r: bool)
    ensures
        r == in_order(key_view(a@), key_view(b@), desc),
{
    let c = key_compare(a, b);
    if desc {
        c >= 0
    } else {
        c <= 0
    }
}

/// `items` stably sorted by `keys` (`keys[i]` is the key of `items[i]`),
/// descending when `desc`.
pub fn sort_by_keys<T>(items: Vec<T>, keys: Vec<Vec<KeyPart>>, desc: bool) -> (r: Vec<T>)
    requires
        items.len() == keys.len(),
    ensures
        exists|perm: Seq<int>| stable_sorted(items@, keys_view(keys@), desc, r@, perm),
{
    let ghost orig = items@;
    let ghost kv = keys_view(keys@);
    let n = items.len();
    let mut items = items;
    let mut keys = keys;
    let mut out: Vec<T> = Vec::new();
    let mut out_keys: Vec<Vec<KeyPart>> = Vec::new();
    let ghost mut perm: Seq<int> = Seq::empty();
    let mut i: usize = 0;
    while i < n
        invariant
            n == orig.len(),
            kv.len() == n,
            i <= n,
            items@ == orig.skip(i as int),
            keys_view(keys@) == kv.skip(i as int),
            items.len() == n - i,
            keys.len() == n - i,
            out.len() == i,
            out_keys.len() == i,
            perm.len() == i,
            forall|k: int| 0 <= k < i ==> 0 <= #[trigger] perm[k] < i,
            forall|a: int, b: int| 0 <= a < b < i ==> perm[a] != perm[b],
            forall|k: int| 0 <= k < i ==> #[trigger] out@[k] == orig[perm[k]],
            forall|k: int| 0 <= k < i ==> #[trigger] key_view(out_keys@[k]@) == kv[perm[k]],
            forall|k: int| 0 <= k < i - 1 ==> in_order(kv[#[trigger] perm[k]], kv[perm[k + 1]], desc),
            forall|a: int, b: int| 0 <= a < b < i && key_order(kv[perm[a]], kv[perm[b]]) == 0 ==> perm[a] < perm[b],
        decreases n - i,
    {
        let ghost keys_before = keys@;
        let it = items.remove(0);
        let key = keys.remove(0);
        proof {
            assert(it == orig[i as int]);
            assert(keys_view(keys_before)[0] == key_view(key@));
            assert(keys_view(keys@) =~= keys_view(keys_before).drop_first());
            assert(orig.skip(i as int).drop_first() =~= orig.skip(i + 1));
            assert(kv.skip(i as int).drop_first() =~= kv.skip(i + 1));
        }
        // Position after the last row that may stand before the new one.
        let mut p: usize = out.len();
        while p > 0 && !may_precede(&out_keys[p - 1], &key, desc)
            invariant
                p <= out_keys.len(),
                out_keys.len() == i,
                forall|k: int| p <= k < i ==> !in_order(#[trigger] key_view(out_keys@[k]@), key_view(key@), desc),
            decreases p,
        {
            p = p - 1;
        }
        let ghost old_perm = perm;
        let ghost old_out = out@;
        let ghost old_keys = out_keys@;
        out.insert(p, it);
        out_keys.insert(p, key);
        proof {
            perm = old_perm.insert(p as int, i as int);
            assert(key_view(key@) == kv[i as int]);
            if p > 0 {
                assert(key_view(old_keys[p - 1]@) == kv[old_perm[p - 1]]);
            }
            assert forall|k: int| p <= k < i implies !in_order(kv[#[trigger] old_perm[k]], kv[i as int], desc) by {
                assert(key_view(old_keys[k]@) == kv[old_perm[k]]);
            }
            lemma_insert_step(kv, old_perm, p as int, i as int, desc);
            assert forall|k: int| 0 <= k < i + 1 implies #[trigger] out@[k] == orig[perm[k]] by {
                if k > p {
                    assert(out@[k] == old_out[k - 1]);
                }
            }
            assert forall|k: int| 0 <= k < i + 1 implies #[trigger] key_view(out_keys@[k]@) == kv[perm[k]] by {
                if k > p {
                    assert(out_keys@[k] == old_keys[k - 1]);
                }
            }
        }
        i = i + 1;
    }
    proof {
        assert(stable_sorted(orig, kv, desc, out@, perm));
    }
    out
}

/// Inserting row `i` after the last row that may stand before it keeps the
/// order and the stability.
proof fn lemma_insert_step(kv: Seq<Seq<KeyPartV>>, perm: Seq<int>, p: int, i: int, desc: bool)
    requires
        perm.len() == i,
        0 <= p <= i < kv.len(),
        forall|k: int| 0 <= k < i ==> 0 <= #[trigger] perm[k] < i,
        forall|a: int, b: int| 0 <= a < b < i ==> perm[a] != perm[b],
        forall|k: int| 0 <= k < i - 1 ==> in_order(kv[#[trigger] perm[k]], kv[perm[k + 1]], desc),
        forall|a: int, b: int| 0 <= a < b < i && key_order(kv[perm[a]], kv[perm[b]]) == 0 ==> perm[a] < perm[b],
        p > 0 ==> in_order(kv[perm[p - 1]], kv[i], desc),
        forall|k: int| p <= k < i ==> !in_order(kv[#[trigger] perm[k]], kv[i], desc),
    ensures
        ({
            let q = perm.insert(p, i);
            &&& q.len() == i + 1
            &&& forall|k: int| 0 <= k < i + 1 ==> 0 <= #[trigger] q[k] < i + 1
            &&& forall|a: int, b: int| 0 <= a < b < i + 1 ==> q[a] != q[b]
            &&& forall|k: int| 0 <= k < i ==> in_order(kv[#[trigger] q[k]], kv[q[k + 1]], desc)
            &&& forall|a: int, b: int| 0 <= a < b < i + 1 && key_order(kv[q[a]], kv[q[b]]) == 0 ==> q[a] < q[b]
        }),
{
    lemma_insert_distinct(perm, p, i);
    lemma_insert_adjacent(kv, perm, p, i, desc);
    lemma_insert_stable(kv, perm, p, i, desc);
}

proof fn lemma_insert_distinct(perm: Seq<int>, p: int, i: int)
    requires
        perm.len() == i,
        0 <= p <= i,
        forall|k: int| 0 <= k < i ==> 0 <= #[trigger] perm[k] < i,
        forall|a: int, b: int| 0 <= a < b < i ==> perm[a] != perm[b],
    ensures
        ({
            let q = perm.insert(p, i);
            &&& q.len() == i + 1
            &&& forall|k: int| 0 <= k < i + 1 ==> 0 <= #[trigger] q[k] < i + 1
            &&& forall|a: int, b: int| 0 <= a < b < i + 1 ==> q[a] != q[b]
        }),
{
    let q = perm.insert(p, i);
    assert forall|k: int| 0 <= k < i + 1 implies 0 <= #[trigger] q[k] < i + 1 by {
        if k > p {
            assert(q[k] == perm[k - 1]);
        }
    }
    assert forall|a: int, b: int| 0 <= a < b < i + 1 implies q[a] != q[b] by {
        if a != p && b != p {
            let a0 = if a < p { a } else { a - 1 };
            let b0 = if b < p { b } else { b - 1 };
            assert(q[a] == perm[a0]);
            assert(q[b] == perm[b0]);
        } else if a == p {
            assert(q[b] == perm[b - 1]);
        } else {
            assert(q[a] == perm[a]);
        }
    }
}

proof fn lemma_insert_adjacent(kv: Seq<Seq<KeyPartV>>, perm: Seq<int>, p: int, i: int, desc: bool)
    requires
        perm.len() == i,
        0 <= p <= i < kv.len(),
        forall|k: int| 0 <= k < i - 1 ==> in_order(kv[#[trigger] perm[k]], kv[perm[k + 1]], desc),
        p > 0 ==> in_order(kv[perm[p - 1]], kv[i], desc),
        forall|k: int| p <= k < i ==> !in_order(kv[#[trigger] perm[k]], kv[i], desc),
    ensures
        ({
            let q = perm.insert(p, i);
            forall|k: int| 0 <= k < i ==> in_order(kv[#[trigger] q[k]], kv[q[k + 1]], desc)
        }),
{
    let q = perm.insert(p, i);
    assert forall|k: int| 0 <= k < i implies in_order(kv[#[trigger] q[k]], kv[q[k + 1]], desc) by {
        if k + 1 < p {
            assert(q[k] == perm[k] && q[k + 1] == perm[k + 1]);
        } else if k + 1 == p {
            assert(q[k] == perm[k]);
            assert(q[k + 1] == i);
        } else if k == p {
            assert(q[k] == i);
            assert(q[k + 1] == perm[k]);
            lemma_flip(kv[i], kv[perm[k]], desc);
        } else {
            assert(q[k] == perm[k - 1] && q[k + 1] == perm[k]);
        }
    }
}

proof fn lemma_insert_stable(kv: Seq<Seq<KeyPartV>>, perm: Seq<int>, p: int, i: int, desc: bool)
    requires
        perm.len() == i,
        0 <= p <= i < kv.len(),
        forall|k: int| 0 <= k < i ==> 0 <= #[trigger] perm[k] < i,
        forall|a: int, b: int| 0 <= a < b < i && key_order(kv[perm[a]], kv[perm[b]]) == 0 ==> perm[a] < perm[b],
        forall|k: int| p <= k < i ==> !in_order(kv[#[trigger] perm[k]], kv[i], desc),
    ensures
        ({
            let q = perm.insert(p, i);
            forall|a: int, b: int| 0 <= a < b < i + 1 && key_order(kv[q[a]], kv[q[b]]) == 0 ==> q[a] < q[b]
        }),
{
    let q = perm.insert(p, i);
    assert forall|a: int, b: int| 0 <= a < b < i + 1 && key_order(kv[q[a]], kv[q[b]]) == 0 implies q[a] < q[b] by {
        if b == p {
            assert(q[a] == perm[a]);
            assert(q[b] == i);
        } else if a == p {
            assert(q[a] == i);
            assert(q[b] == perm[b - 1]);
            lemma_order_flip(kv[i], kv[perm[b - 1]]);
            assert(!in_order(kv[perm[b - 1]], kv[i], desc));
        } else {
            let a0 = if a < p { a } else { a - 1 };
            let b0 = if b < p { b } else { b - 1 };
            assert(q[a] == perm[a0]);
            assert(q[b] == perm[b0]);
        }
    }
}

pub proof fn lemma_text_order_flip(a: Seq<char>, b: Seq<char>)
    ensures
        text_order(a, b) == -text_order(b, a),
        -1 <= text_order(a, b) <= 1,
    decreases a.len(),
{
    if a.len() > 0 && b.len() > 0 && a[0] == b[0] {
        lemma_text_order_flip(a.drop_first(), b.drop_first());
    }
}

proof fn lemma_order_flip(a: Seq<KeyPartV>, b: Seq<KeyPartV>)
    ensures
        key_order(a, b) == -key_order(b, a),
        -1 <= key_order(a, b) <= 1,
    decreases a.len(),
{
    if a.len() > 0 && b.len() > 0 {
        match (a[0], b[0]) {
            (KeyPartV::Text(x), KeyPartV::Text(y)) => lemma_text_order_flip(x, y),
            _ => {},
        }
        if part_order(a[0], b[0]) == 0 {
            lemma_order_flip(a.drop_first(), b.drop_first());
        }
    }
}

/// Out of order one way means in order the other.
proof fn lemma_flip(a: Seq<KeyPartV>, b: Seq<KeyPartV>, desc: bool)
    requires
        !in_order(b, a, desc),
    ensures
        in_order(a, b, desc),
{
    lemma_order_flip(a, b);
}

/// A stable order of items is a stable order of any image of them.
pub proof fn lemma_sorted_map<T, U>(
    items: Seq<T>,
    keys: Seq<Seq<KeyPartV>>,
    desc: bool,
    out: Seq<T>,
    perm: Seq<int>,
    f: spec_fn(T) -> U,
)
    requires
        stable_sorted(items, keys, desc, out, perm),
    ensures
        stable_sorted(items.map_values(f), keys, desc, out.map_values(f), perm),
{
    assert forall|k: int| 0 <= k < out.len() implies #[trigger] out.map_values(f)[k] == items.map_values(f)[perm[k]] by {
        assert(out[k] == items[perm[k]]);
    }
}

/// Text order is transitive.
pub proof fn lemma_text_order_trans(a: Seq<char>, b: Seq<char>, c: Seq<char>)
    requires
        text_order(a, b) == -1,
        text_order(b, c) == -1,
    ensures
        text_order(a, c) == -1,
    decreases a.len(),
{
    if a.len() > 0 && b.len() > 0 && c.len() > 0 && a[0] == b[0] && b[0] == c[0] {
        lemma_text_order_trans(a.drop_first(), b.drop_first(), c.drop_first());
    }
}

/// Texts in order 0 are the same text.
pub proof fn lemma_text_order_eq(a: Seq<char>, b: Seq<char>)
    ensures
        text_order(a, b) == 0 <==> a == b,
    decreases a.len(),
{
    if a.len() > 0 && b.len() > 0 && a[0] == b[0] {
        lemma_text_order_eq(a.drop_first(), b.drop_first());
        if a.drop_first() == b.drop_first() {
            assert(a =~= seq![a[0]] + a.drop_first());
            assert(b =~= seq![b[0]] + b.drop_first());
        }
        if a == b {
            assert(a.drop_first() =~= b.drop_first());
        }
    } else if a.len() == 0 && b.len() == 0 {
        assert(a =~= b);
    }
}


/// A sorted output holds exactly the items: each output row is an item, and
/// each item is in the output.
pub proof fn lemma_sorted_same_items<T>(items: Seq<T>, keys: Seq<Seq<KeyPartV>>, desc: bool, out: Seq<T>, perm: Seq<int>)
    requires
        stable_sorted(items, keys, desc, out, perm),
    ensures
        forall|k: int| 0 <= k < out.len() ==> items.contains(#[trigger] out[k]),
        forall|i: int| 0 <= i < items.len() ==> out.contains(#[trigger] items[i]),
{
    assert forall|k: int| 0 <= k < out.len() implies items.contains(#[trigger] out[k]) by {
        assert(out[k] == items[perm[k]]);
    }
    let n = items.len() as int;
    assert(perm.no_duplicates()) by {
        assert forall|a: int, b: int| 0 <= a < perm.len() && 0 <= b < perm.len() && a != b implies perm[a] != perm[b] by {
            if a < b {
                assert(perm[a] != perm[b]);
            } else {
                assert(perm[b] != perm[a]);
            }
        }
    }
    perm.unique_seq_to_set();
    vstd::set_lib::lemma_int_range(0, n);
    let range = vstd::set_lib::set_int_range(0, n);
    assert(perm.to_set().subset_of(range)) by {
        assert forall|x: int| perm.to_set().contains(x) implies range.contains(x) by {
            let k = choose|k: int| 0 <= k < perm.len() && perm[k] == x;
            assert(0 <= perm[k] < n);
        }
    }
    vstd::seq_lib::seq_to_set_is_finite(perm);
    vstd::set_lib::lemma_subset_equality(perm.to_set(), range);
    assert forall|i: int| 0 <= i < items.len() implies out.contains(#[trigger] items[i]) by {
        assert(range.contains(i));
        assert(perm.to_set().contains(i));
        let k = choose|k: int| 0 <= k < perm.len() && perm[k] == i;
        assert(out[k] == items[i]);
    }
}

} // verus!
