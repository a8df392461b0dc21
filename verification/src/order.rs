//! Lexicographic order on character sequences (the order of `String::cmp`,
//! which compares code points), composite sort keys, and a stable sort that
//! reorders items by such keys.
use vstd::prelude::*;

verus! {

// ── Lexicographic order on characters ──────────────────────────────────

/// `a` sorts before `b` when compared from position `i` on.
pub open spec fn lex_lt_at(a: Seq<char>, b: Seq<char>, i: int) -> bool
    decreases a.len() + b.len() - 2 * i,
{
    if i < 0 {
        false
    } else if i >= a.len() {
        i < b.len()
    } else if i >= b.len() {
        false
    } else if (a[i] as u32) < (b[i] as u32) {
        true
    } else if a[i] == b[i] {
        lex_lt_at(a, b, i + 1)
    } else {
        false
    }
}

/// `a` sorts strictly before `b` (`a < b` for `String`).
pub open spec fn lex_lt(a: Seq<char>, b: Seq<char>) -> bool {
    lex_lt_at(a, b, 0)
}

proof fn lemma_char_eq(x: char, y: char)
    requires
        (x as u32) == (y as u32),
    ensures
        x == y,
{
}

proof fn lemma_lex_irrefl_at(a: Seq<char>, i: int)
    requires
        0 <= i,
    ensures
        !lex_lt_at(a, a, i),
    decreases a.len() - i,
{
    if i < a.len() {
        lemma_lex_irrefl_at(a, i + 1);
    }
}

proof fn lemma_lex_trans_at(a: Seq<char>, b: Seq<char>, c: Seq<char>, i: int)
    requires
        0 <= i,
        lex_lt_at(a, b, i),
        lex_lt_at(b, c, i),
    ensures
        lex_lt_at(a, c, i),
    decreases a.len() + b.len() + c.len() - 3 * i,
{
    if i < a.len() && i < b.len() && i < c.len() && a[i] == b[i] && b[i] == c[i] {
        lemma_lex_trans_at(a, b, c, i + 1);
    }
}

proof fn lemma_lex_total_at(a: Seq<char>, b: Seq<char>, i: int)
    requires
        0 <= i <= a.len(),
        i <= b.len(),
        a.take(i) == b.take(i),
        a != b,
    ensures
        lex_lt_at(a, b, i) || lex_lt_at(b, a, i),
    decreases a.len() + b.len() - 2 * i,
{
    if i < a.len() && i < b.len() && a[i] == b[i] {
        assert(a.take(i + 1) =~= a.take(i).push(a[i]));
        assert(b.take(i + 1) =~= b.take(i).push(b[i]));
        lemma_lex_total_at(a, b, i + 1);
    } else if i >= a.len() && i >= b.len() {
        assert(a =~= a.take(i));
        assert(b =~= b.take(i));
    } else if i < a.len() && i < b.len() {
        let x = a[i] as u32;
        let y = b[i] as u32;
        assert(x != y) by {
            if x == y {
                lemma_char_eq(a[i], b[i]);
            }
        }
    }
}

/// `lex_lt` is irreflexive.
pub proof fn lemma_lex_irrefl(a: Seq<char>)
    ensures
        !lex_lt(a, a),
{
    lemma_lex_irrefl_at(a, 0);
}

/// `lex_lt` is transitive.
pub proof fn lemma_lex_trans(a: Seq<char>, b: Seq<char>, c: Seq<char>)
    requires
        lex_lt(a, b),
        lex_lt(b, c),
    ensures
        lex_lt(a, c),
{
    lemma_lex_trans_at(a, b, c, 0);
}

/// Two different sequences are ordered one way or the other.
pub proof fn lemma_lex_total(a: Seq<char>, b: Seq<char>)
    ensures
        a == b || lex_lt(a, b) || lex_lt(b, a),
{
    if a != b {
        assert(a.take(0) =~= b.take(0));
        lemma_lex_total_at(a, b, 0);
    }
}

/// `lex_lt` is asymmetric.
pub proof fn lemma_lex_asym(a: Seq<char>, b: Seq<char>)
    requires
        lex_lt(a, b),
    ensures
        !lex_lt(b, a),
{
    if lex_lt(b, a) {
        lemma_lex_trans(a, b, a);
        lemma_lex_irrefl(a);
    }
}

/// Three-way comparison of character slices: negative, zero or positive as
/// `a` sorts before, equal to, or after `b`.
pub fn compare_chars(a: &[char], b: &[char]) -> (r: i8)
    ensures
        (r < 0) == lex_lt(a@, b@),
        (r == 0) == (a@ == b@),
        (r > 0) == lex_lt(b@, a@),
{
    let mut i: usize = 0;
    while i < a.len() && i < b.len()
        invariant
            i <= a.len(),
            i <= b.len(),
            a@.take(i as int) == b@.take(i as int),
            lex_lt(a@, b@) == lex_lt_at(a@, b@, i as int),
            lex_lt(b@, a@) == lex_lt_at(b@, a@, i as int),
        decreases a.len() - i,
    {
        let x = a[i];
        let y = b[i];
        let xu = x as u32;
        let yu = y as u32;
        if xu < yu {
            proof {
                assert(x == a@[i as int] && y == b@[i as int]);
                assert((a@[i as int] as u32) < (b@[i as int] as u32));
                assert(lex_lt_at(a@, b@, i as int));
                lemma_lex_asym(a@, b@);
                assert(a@ != b@) by {
                    if a@ == b@ {
                        assert(a@[i as int] == b@[i as int]);
                    }
                }
            }
            return -1;
        }
        if xu != yu {
            proof {
                assert((y as u32) < (x as u32)) by {
                    if (x as u32) == (y as u32) {
                        lemma_char_eq(x, y);
                    }
                }
                assert(x == a@[i as int] && y == b@[i as int]);
                assert(lex_lt_at(b@, a@, i as int));
                lemma_lex_asym(b@, a@);
                assert(a@ != b@) by {
                    if a@ == b@ {
                        assert(a@[i as int] == b@[i as int]);
                    }
                }
            }
            return 1;
        }
        proof {
            lemma_char_eq(x, y);
        }
        assert(a@.take(i + 1) =~= a@.take(i as int).push(x));
        assert(b@.take(i + 1) =~= b@.take(i as int).push(y));
        i += 1;
    }
    if a.len() < b.len() {
        proof {
            lemma_lex_asym(a@, b@);
        }
        -1
    } else if b.len() < a.len() {
        proof {
            lemma_lex_asym(b@, a@);
        }
        1
    } else {
        assert(a@ =~= a@.take(i as int));
        assert(b@ =~= b@.take(i as int));
        proof {
            lemma_lex_irrefl(a@);
        }
        0
    }
}

// ── Composite sort keys ─────────────────────────────────────────────────

/// A sort key: a major text, a minor text that breaks ties, then a number.
pub struct SortKey {
    pub major: Vec<char>,
    pub minor: Vec<char>,
    pub num: u64,
}

/// The mathematical value of a sort key.
pub type KeyView = (Seq<char>, Seq<char>, nat);

impl SortKey {
    pub open spec fn kv(&self) -> KeyView {
        (self.major@, self.minor@, self.num as nat)
    }
}

/// Strict order on key values: by major text, then minor text, then number.
pub open spec fn key_lt(a: KeyView, b: KeyView) -> bool {
    ||| lex_lt(a.0, b.0)
    ||| (a.0 == b.0 && lex_lt(a.1, b.1))
    ||| (a.0 == b.0 && a.1 == b.1 && a.2 < b.2)
}

/// In a stable sort, the item with key `ka` at input position `ia` comes
/// before the item with key `kb` at input position `ib`. `desc` reverses the
/// key order (not the order of equal keys), as `Ordering::reverse` does.
pub open spec fn before(ka: KeyView, ia: int, kb: KeyView, ib: int, desc: bool) -> bool {
    ||| (!desc && key_lt(ka, kb))
    ||| (desc && key_lt(kb, ka))
    ||| (ka == kb && ia < ib)
}

proof fn lemma_key_trans(a: KeyView, b: KeyView, c: KeyView)
    requires
        key_lt(a, b),
        key_lt(b, c),
    ensures
        key_lt(a, c),
{
    if lex_lt(a.0, b.0) && lex_lt(b.0, c.0) {
        lemma_lex_trans(a.0, b.0, c.0);
    }
    if a.0 == b.0 && b.0 == c.0 && lex_lt(a.1, b.1) && lex_lt(b.1, c.1) {
        lemma_lex_trans(a.1, b.1, c.1);
    }
}

proof fn lemma_key_irrefl(a: KeyView)
    ensures
        !key_lt(a, a),
{
    lemma_lex_irrefl(a.0);
    lemma_lex_irrefl(a.1);
}

proof fn lemma_key_total(a: KeyView, b: KeyView)
    ensures
        a == b || key_lt(a, b) || key_lt(b, a),
{
    lemma_lex_total(a.0, b.0);
    lemma_lex_total(a.1, b.1);
}

/// `before` is a strict total order on (key, position) pairs with distinct
/// positions.
pub proof fn lemma_before_trans(
    ka: KeyView,
    ia: int,
    kb: KeyView,
    ib: int,
    kc: KeyView,
    ic: int,
    desc: bool,
)
    requires
        before(ka, ia, kb, ib, desc),
        before(kb, ib, kc, ic, desc),
    ensures
        before(ka, ia, kc, ic, desc),
{
    if !desc {
        if key_lt(ka, kb) && key_lt(kb, kc) {
            lemma_key_trans(ka, kb, kc);
        }
    } else {
        if key_lt(kb, ka) && key_lt(kc, kb) {
            lemma_key_trans(kc, kb, ka);
        }
    }
}

/// Two distinct positions are ordered one way or the other.
pub proof fn lemma_before_total(ka: KeyView, ia: int, kb: KeyView, ib: int, desc: bool)
    requires
        ia != ib,
    ensures
        before(ka, ia, kb, ib, desc) || before(kb, ib, ka, ia, desc),
{
    lemma_key_total(ka, kb);
}

/// Compares two keys: negative, zero or positive.
pub fn compare_keys(a: &SortKey, b: &SortKey) -> (r: i8)
    ensures
        (r < 0) == key_lt(a.kv(), b.kv()),
        (r == 0) == (a.kv() == b.kv()),
        (r > 0) == key_lt(b.kv(), a.kv()),
{
    proof {
        lemma_lex_asym_both(a.major@, b.major@);
        lemma_lex_asym_both(a.minor@, b.minor@);
        lemma_lex_irrefl(a.major@);
        lemma_lex_irrefl(a.minor@);
    }
    let c = compare_chars(&a.major, &b.major);
    if c != 0 {
        return c;
    }
    let d = compare_chars(&a.minor, &b.minor);
    if d != 0 {
        return d;
    }
    if a.num < b.num {
        -1
    } else if a.num > b.num {
        1
    } else {
        0
    }
}

proof fn lemma_lex_asym_both(a: Seq<char>, b: Seq<char>)
    ensures
        lex_lt(a, b) ==> !lex_lt(b, a),
        lex_lt(b, a) ==> !lex_lt(a, b),
{
    if lex_lt(a, b) {
        lemma_lex_asym(a, b);
    }
    if lex_lt(b, a) {
        lemma_lex_asym(b, a);
    }
}

// ── Stable sort ─────────────────────────────────────────────────────────

/// `p` lists each position `0..n` exactly once.
pub open spec fn is_perm(p: Seq<int>, n: nat) -> bool {
    &&& p.len() == n
    &&& forall|i: int| 0 <= i < n ==> 0 <= #[trigger] p[i] < n
    &&& forall|i: int, j: int| 0 <= i < j < n ==> p[i] != p[j]
}

/// `p` orders the positions of `keys` as a stable sort does.
pub open spec fn stably_sorted(p: Seq<int>, keys: Seq<KeyView>, desc: bool) -> bool {
    forall|i: int, j: int|
        0 <= i < j < p.len() ==> before(keys[p[i]], p[i], keys[p[j]], p[j], desc)
}

/// `out` is `items` reordered by the stable sort on `keys`.
pub open spec fn is_stable_sort_of<T>(
    out: Seq<T>,
    items: Seq<T>,
    keys: Seq<KeyView>,
    desc: bool,
) -> bool {
    exists|p: Seq<int>|
        #![trigger is_perm(p, items.len())]
        is_perm(p, items.len()) && stably_sorted(p, keys, desc) && out.len() == items.len() && (
        forall|i: int| 0 <= i < out.len() ==> out[i] == items[#[trigger] p[i]])
}

/// The key values of a vector of keys.
pub open spec fn kvs(keys: Seq<SortKey>) -> Seq<KeyView> {
    keys.map_values(|k: SortKey| k.kv())
}

/// Reorders `items` by `keys` (one key per item) with a stable sort:
/// ascending, or descending in the key order when `desc` holds, equal keys
/// keeping their input order.
pub fn stable_sort_by_keys<T>(items: Vec<T>, keys: Vec<SortKey>, desc: bool) -> (out: Vec<T>)
    requires
        items.len() == keys.len(),
    ensures
        is_stable_sort_of(out@, items@, kvs(keys@), desc),
{
    let n = items.len();
    let ghost ks = kvs(keys@);
    let mut src_items = items;
    let mut src_keys = keys;
    let mut out: Vec<T> = Vec::new();
    let mut out_keys: Vec<SortKey> = Vec::new();
    let ghost mut p: Seq<int> = seq![];
    let ghost orig = src_items@;
    // Take items from the back so that `remove` is cheap, inserting each one
    // before every already placed item it precedes.
    let mut k: usize = n;
    while k > 0
        invariant
            k <= n,
            n == orig.len(),
            ks.len() == n,
            src_items@ == orig.take(k as int),
            kvs(src_keys@) == ks.take(k as int),
            out@.len() == n - k,
            p.len() == n - k,
            kvs(out_keys@).len() == n - k,
            forall|i: int| 0 <= i < p.len() ==> k <= #[trigger] p[i] < n,
            forall|i: int, j: int| 0 <= i < j < p.len() ==> p[i] != p[j],
            forall|i: int| 0 <= i < p.len() ==> out@[i] == orig[#[trigger] p[i]],
            forall|i: int| 0 <= i < p.len() ==> kvs(out_keys@)[i] == ks[#[trigger] p[i]],
            stably_sorted(p, ks, desc),
        decreases k,
    {
        k -= 1;
        let ghost old_keys = src_keys@;
        assert(kvs(old_keys).len() == old_keys.len());
        assert(kvs(old_keys)[k as int] == old_keys[k as int].kv());
        let x = src_items.pop().unwrap();
        let kx = src_keys.pop().unwrap();
        assert(kx == old_keys[k as int]);
        assert(orig.take(k as int + 1).last() == orig[k as int]);
        assert(kvs(src_keys@) =~= ks.take(k as int)) by {
            assert(ks.take(k as int + 1).drop_last() =~= ks.take(k as int));
        }
        assert(src_items@ =~= orig.take(k as int));
        assert(kx.kv() == ks[k as int]);
        // position: after every placed item that precedes `kx`
        let mut pos: usize = 0;
        while pos < out_keys.len() && stays_before(&out_keys[pos], &kx, desc)
            invariant
                pos <= out_keys.len(),
                kvs(out_keys@).len() == p.len(),
                forall|i: int| 0 <= i < p.len() ==> k < #[trigger] p[i] < n,
                forall|i: int| 0 <= i < p.len() ==> kvs(out_keys@)[i] == ks[#[trigger] p[i]],
                kx.kv() == ks[k as int],
                forall|i: int|
                    0 <= i < pos ==> before(ks[p[i]], #[trigger] p[i], ks[k as int], k as int, desc),
            decreases out_keys.len() - pos,
        {
            pos += 1;
        }
        proof {
            if pos < out_keys.len() {
                assert(kvs(out_keys@)[pos as int] == out_keys@[pos as int].kv());
            }
        }
        let ghost old_p = p;
        let ghost old_out_keys = kvs(out_keys@);
        out.insert(pos, x);
        out_keys.insert(pos, kx);
        proof {
            p = old_p.insert(pos as int, k as int);
            assert(kvs(out_keys@) =~= old_out_keys.insert(pos as int, ks[k as int]));
            assert forall|i: int, j: int| 0 <= i < j < p.len() implies before(
                ks[p[i]],
                p[i],
                ks[p[j]],
                p[j],
                desc,
            ) by {
                if i < pos && j == pos {
                } else if i == pos && j > pos {
                    // kx precedes the item that stopped the search, which
                    // precedes every later one
                    let q = old_p[pos as int];
                    assert(p[j] == old_p[j - 1]);
                    assert(!before(ks[q], q, ks[k as int], k as int, desc));
                    lemma_before_total(ks[q], q, ks[k as int], k as int, desc);
                    if j - 1 > pos {
                        lemma_before_trans(
                            ks[k as int],
                            k as int,
                            ks[q],
                            q,
                            ks[old_p[j - 1]],
                            old_p[j - 1],
                            desc,
                        );
                    }
                } else if i < pos && j > pos {
                    assert(p[j] == old_p[j - 1]);
                } else if i > pos {
                    assert(p[i] == old_p[i - 1]);
                    assert(p[j] == old_p[j - 1]);
                }
            }
        }
    }
    assert(src_items@.len() == 0);
    assert(is_perm(p, orig.len())) by {
        assert forall|i: int| 0 <= i < n implies 0 <= #[trigger] p[i] < n by {}
    }
    assert(orig == items@);
    out
}

/// Whether the placed key `placed` stays before a newly inserted key `new`,
/// which comes from an earlier input position.
fn stays_before(placed: &SortKey, new: &SortKey, desc: bool) -> (r: bool)
    ensures
        r == (if desc {
            key_lt(new.kv(), placed.kv())
        } else {
            key_lt(placed.kv(), new.kv())
        }),
{
    let c = compare_keys(placed, new);
    if desc {
        c > 0
    } else {
        c < 0
    }
}

} // verus!
