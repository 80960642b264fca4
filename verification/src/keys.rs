//! The SSH Keys screen's rules: the search, algorithm and creation-date
//! filters, the order by creation time, and the checks of the create and edit
//! forms.

use vstd::prelude::*;
use vstd::utf8::{encode_utf8, is_char_boundary};
use crate::api::SshKey;
use crate::listing::{
    bytes_equal, bytes_less, bytes_lt, indices_where, lemma_bytes_asymmetric, lemma_bytes_irreflexive,
    lemma_bytes_total, lemma_bytes_transitive, lemma_indices_where, lemma_indices_where_contains, text_bytes,
};
use crate::text::{
    chars_of, contains_chars, has_infix, str_eq, string_of, to_lowercase, trim, trim_seq, unicode_lowercase,
};

verus! {

broadcast use vstd::utf8::encode_utf8_valid_utf8;

// ---------------------------------------------------------------------------
// Sort direction
// ---------------------------------------------------------------------------

/// Direction of the creation-time order; the list opens newest first.
#[derive(Debug, Clone, Copy, PartialEq, Eq, Structural)]
pub enum CreatedAtSort {
    Desc,
    Asc,
}

impl CreatedAtSort {
    /// The direction the column header switches to.
    pub fn toggled(self) -> (r: CreatedAtSort)
        ensures
            r != self,
    {
        match self {
            CreatedAtSort::Desc => CreatedAtSort::Asc,
            CreatedAtSort::Asc => CreatedAtSort::Desc,
        }
    }

    /// The arrow shown beside the column title.
    pub fn indicator(self) -> (r: &'static str)
        ensures
            self == CreatedAtSort::Asc ==> r@ == "▲"@,
            self == CreatedAtSort::Desc ==> r@ == "▼"@,
    {
        match self {
            CreatedAtSort::Asc => "▲",
            CreatedAtSort::Desc => "▼",
        }
    }

    /// String-table key of the header's tooltip, which names what a click does.
    pub fn toggle_label_key(self) -> (r: &'static str)
        ensures
            self == CreatedAtSort::Asc ==> r@ == "keys.sort_created_at_desc"@,
            self == CreatedAtSort::Desc ==> r@ == "keys.sort_created_at_asc"@,
    {
        match self {
            CreatedAtSort::Asc => "keys.sort_created_at_desc",
            CreatedAtSort::Desc => "keys.sort_created_at_asc",
        }
    }
}

/// Choosing a direction: the new direction, and whether the list goes back to
/// its first page (only when the direction changed).
pub fn choose_sort(current: CreatedAtSort, chosen: CreatedAtSort) -> (r: (CreatedAtSort, bool))
    ensures
        r.0 == chosen,
        r.1 == (current != chosen),
{
    (chosen, current != chosen)
}

// ---------------------------------------------------------------------------
// Filters
// ---------------------------------------------------------------------------

/// The creation date a key is filtered by: the first ten bytes of its
/// creation time (`YYYY-MM-DD`), or nothing when the text is shorter or the
/// tenth byte falls inside a character.
pub open spec fn date_key(created: Seq<u8>) -> Seq<u8> {
    if is_char_boundary(created, 10) {
        created.take(10)
    } else {
        Seq::empty()
    }
}

/// Whether a key passes the filters: the lower-cased query occurs in the
/// lower-cased directory, comment or remark (an empty query passes); the
/// algorithm matches exactly (empty = all); the creation date is not before
/// `from` and not after `to` in text order (empty bounds pass).
pub open spec fn key_visible(k: SshKey, q: Seq<char>, algorithm: Seq<char>, from: Seq<char>, to: Seq<char>) -> bool {
    &&& (q.len() == 0 || has_infix(unicode_lowercase(k.directory@), q) || has_infix(
        unicode_lowercase(k.comment@),
        q,
    ) || has_infix(unicode_lowercase(k.remark@), q))
    &&& (algorithm.len() == 0 || k.algorithm@ == algorithm)
    &&& (from.len() == 0 || !bytes_lt(date_key(text_bytes(k.created_at)), encode_utf8(from)))
    &&& (to.len() == 0 || !bytes_lt(encode_utf8(to), date_key(text_bytes(k.created_at))))
}

/// The creation date of a key, as bytes.
fn date_key_of(created: &str) -> (r: Vec<u8>)
    ensures
        r@ == date_key(encode_utf8(created@)),
{
    if created.is_char_boundary(10) {
        let (head, _rest) = created.split_at(10);
        let bytes = head.as_bytes();
        let mut r: Vec<u8> = Vec::new();
        let mut i: usize = 0;
        while i < bytes.len()
            invariant
                i <= bytes@.len(),
                r@ == bytes@.take(i as int),
            decreases bytes@.len() - i,
        {
            r.push(bytes[i]);
            i = i + 1;
            assert(r@ =~= bytes@.take(i as int));
        }
        assert(bytes@.take(i as int) =~= bytes@);
        r
    } else {
        Vec::new()
    }
}

fn key_passes(k: &SshKey, q: &[char], algorithm: &str, from: &str, to: &str) -> (b: bool)
    ensures
        b == key_visible(*k, q@, algorithm@, from@, to@),
{
    let query_ok = q.len() == 0 || contains_chars(&chars_of(to_lowercase(k.directory.as_str()).as_str()), q)
        || contains_chars(&chars_of(to_lowercase(k.comment.as_str()).as_str()), q) || contains_chars(
        &chars_of(to_lowercase(k.remark.as_str()).as_str()),
        q,
    );
    let algorithm_ok = algorithm.is_empty() || str_eq(k.algorithm.as_str(), algorithm);
    let date = date_key_of(k.created_at.as_str());
    let from_ok = from.is_empty() || !bytes_less(date.as_slice(), from.as_bytes());
    let to_ok = to.is_empty() || !bytes_less(to.as_bytes(), date.as_slice());
    query_ok && algorithm_ok && from_ok && to_ok
}

/// Positions of the keys that pass the filters, in list order.
pub fn filter_keys(keys: &[SshKey], query: &str, algorithm: &str, from: &str, to: &str) -> (r: Vec<usize>)
    ensures
        r@ == indices_where(
            keys@.len(),
            |i: int| key_visible(keys@[i], unicode_lowercase(query@), algorithm@, from@, to@),
        ),
{
    let q = chars_of(to_lowercase(query).as_str());
    let ghost keep = |i: int| key_visible(keys@[i], unicode_lowercase(query@), algorithm@, from@, to@);
    let mut r: Vec<usize> = Vec::new();
    let mut i: usize = 0;
    while i < keys.len()
        invariant
            i <= keys@.len(),
            q@ == unicode_lowercase(query@),
            keep == (|i: int| key_visible(keys@[i], unicode_lowercase(query@), algorithm@, from@, to@)),
            r@ == indices_where(i as nat, keep),
        decreases keys@.len() - i,
    {
        if key_passes(&keys[i], &q, algorithm, from, to) {
            r.push(i);
        }
        i = i + 1;
    }
    r
}

// ---------------------------------------------------------------------------
// Order by creation time
// ---------------------------------------------------------------------------

/// Oldest-first order of key positions: by creation time as text, and by
/// position among keys created at the same time (the sort is stable).
pub open spec fn created_before(keys: Seq<SshKey>, a: int, b: int) -> bool {
    ||| bytes_lt(text_bytes(keys[a].created_at), text_bytes(keys[b].created_at))
    ||| (text_bytes(keys[a].created_at) == text_bytes(keys[b].created_at) && a < b)
}

/// The order in which the list shows key positions for a direction: oldest
/// first, or its exact reverse.
pub open spec fn listed_before(keys: Seq<SshKey>, order: CreatedAtSort, a: int, b: int) -> bool {
    match order {
        CreatedAtSort::Asc => created_before(keys, a, b),
        CreatedAtSort::Desc => created_before(keys, b, a),
    }
}

/// `r` lists positions strictly in the order of `order`.
pub open spec fn in_listing_order(keys: Seq<SshKey>, order: CreatedAtSort, r: Seq<usize>) -> bool {
    forall|a: int, b: int| 0 <= a < b < r.len() ==> listed_before(keys, order, #[trigger] r[a] as int, #[trigger] r[b] as int)
}

/// `r` holds exactly the positions below `keys.len()` that `keep` accepts.
pub open spec fn lists_exactly(keys: Seq<SshKey>, keep: spec_fn(int) -> bool, r: Seq<usize>) -> bool {
    &&& forall|k: int| 0 <= k < r.len() ==> (#[trigger] r[k]) < keys.len()
    &&& forall|i: int| 0 <= i < keys.len() ==> (#[trigger] r.contains(i as usize) <==> keep(i))
}

proof fn lemma_created_before_strict(keys: Seq<SshKey>, a: int, b: int, c: int)
    ensures
        !created_before(keys, a, a),
        created_before(keys, a, b) ==> !created_before(keys, b, a),
        created_before(keys, a, b) && created_before(keys, b, c) ==> created_before(keys, a, c),
        a != b ==> created_before(keys, a, b) || created_before(keys, b, a),
{
    let ta = text_bytes(keys[a].created_at);
    let tb = text_bytes(keys[b].created_at);
    let tc = text_bytes(keys[c].created_at);
    lemma_bytes_irreflexive(ta);
    lemma_bytes_total(ta, tb);
    if bytes_lt(ta, tb) {
        lemma_bytes_asymmetric(ta, tb);
    }
    if bytes_lt(ta, tb) && bytes_lt(tb, tc) {
        lemma_bytes_transitive(ta, tb, tc);
    }
    if bytes_lt(tb, ta) {
        lemma_bytes_asymmetric(tb, ta);
    }
}

proof fn lemma_listed_before_strict(keys: Seq<SshKey>, order: CreatedAtSort, a: int, b: int, c: int)
    ensures
        !listed_before(keys, order, a, a),
        listed_before(keys, order, a, b) ==> !listed_before(keys, order, b, a),
        listed_before(keys, order, a, b) && listed_before(keys, order, b, c) ==> listed_before(keys, order, a, c),
        a != b ==> listed_before(keys, order, a, b) || listed_before(keys, order, b, a),
{
    lemma_created_before_strict(keys, a, b, c);
    lemma_created_before_strict(keys, c, b, a);
    lemma_created_before_strict(keys, b, a, c);
}

/// Whether position `a` is listed before position `b`.
fn listed_before_exec(keys: &[SshKey], order: CreatedAtSort, a: usize, b: usize) -> (r: bool)
    requires
        a < keys@.len(),
        b < keys@.len(),
    ensures
        r == listed_before(keys@, order, a as int, b as int),
{
    let ca = keys[a].created_at.as_str().as_bytes();
    let cb = keys[b].created_at.as_str().as_bytes();
    let same = bytes_equal(ca, cb);
    match order {
        CreatedAtSort::Asc => bytes_less(ca, cb) || (same && a < b),
        CreatedAtSort::Desc => bytes_less(cb, ca) || (same && b < a),
    }
}

/// Put the positions `picked` (strictly increasing, all below `keys.len()`)
/// in listing order.
fn sort_positions(keys: &[SshKey], picked: &Vec<usize>, order: CreatedAtSort) -> (r: Vec<usize>)
    requires
        forall|k: int| 0 <= k < picked@.len() ==> (#[trigger] picked@[k]) < keys@.len(),
        forall|a: int, b: int| 0 <= a < b < picked@.len() ==> #[trigger] picked@[a] < #[trigger] picked@[b],
    ensures
        r@.len() == picked@.len(),
        forall|k: int| 0 <= k < r@.len() ==> (#[trigger] r@[k]) < keys@.len(),
        forall|x: usize| #[trigger] r@.contains(x) <==> picked@.contains(x),
        in_listing_order(keys@, order, r@),
{
    let mut r: Vec<usize> = Vec::new();
    let mut i: usize = 0;
    while i < picked.len()
        invariant
            i <= picked@.len(),
            r@.len() == i,
            forall|k: int| 0 <= k < picked@.len() ==> (#[trigger] picked@[k]) < keys@.len(),
            forall|a: int, b: int| 0 <= a < b < picked@.len() ==> #[trigger] picked@[a] < #[trigger] picked@[b],
            forall|k: int| 0 <= k < r@.len() ==> (#[trigger] r@[k]) < keys@.len(),
            forall|x: usize| #[trigger] r@.contains(x) <==> picked@.take(i as int).contains(x),
            in_listing_order(keys@, order, r@),
        decreases picked@.len() - i,
    {
        let x = picked[i];
        assert(!r@.contains(x)) by {
            if r@.contains(x) {
                let k = choose|k: int| 0 <= k < i && #[trigger] picked@.take(i as int)[k] == x;
                assert(picked@[k] < picked@[i as int]);
            }
        }
        let n = r.len();
        let mut j: usize = 0;
        while j < n && !listed_before_exec(keys, order, x, r[j])
            invariant
                n == r@.len(),
                j <= n,
                x < keys@.len(),
                !r@.contains(x),
                forall|k: int| 0 <= k < r@.len() ==> (#[trigger] r@[k]) < keys@.len(),
                forall|k: int| 0 <= k < j ==> listed_before(keys@, order, #[trigger] r@[k] as int, x as int),
            decreases n - j,
        {
            proof {
                assert(r@[j as int] != x);
                lemma_listed_before_strict(keys@, order, x as int, r@[j as int] as int, x as int);
            }
            j = j + 1;
        }
        let ghost before = r@;
        r.insert(j, x);
        proof {
            assert(r@ =~= before.insert(j as int, x));
            assert forall|a: int, b: int| 0 <= a < b < r@.len() implies listed_before(
                keys@,
                order,
                #[trigger] r@[a] as int,
                #[trigger] r@[b] as int,
            ) by {
                if b < j {
                    assert(r@[a] == before[a] && r@[b] == before[b]);
                } else if b == j {
                    assert(r@[a] == before[a]);
                } else if a == j {
                    assert(r@[b] == before[b - 1]);
                    if b - 1 > j {
                        assert(listed_before(keys@, order, before[j as int] as int, before[b - 1] as int));
                        lemma_listed_before_strict(keys@, order, x as int, before[j as int] as int, before[b - 1] as int);
                    }
                } else if a < j {
                    assert(r@[a] == before[a] && r@[b] == before[b - 1]);
                } else {
                    assert(r@[a] == before[a - 1] && r@[b] == before[b - 1]);
                }
            }
            assert forall|k: int| 0 <= k < r@.len() implies (#[trigger] r@[k]) < keys@.len() by {
                if k < j {
                    assert(r@[k] == before[k]);
                } else if k > j {
                    assert(r@[k] == before[k - 1]);
                }
            }
            assert(picked@.take(i + 1) =~= picked@.take(i as int).push(x));
            assert forall|y: usize| #[trigger] r@.contains(y) <==> picked@.take(i + 1).contains(y) by {
                if r@.contains(y) {
                    let k = choose|k: int| 0 <= k < r@.len() && r@[k] == y;
                    if k < j {
                        assert(before[k] == y);
                        assert(before.contains(y));
                        assert(picked@.take(i as int).contains(y));
                    } else if k > j {
                        assert(before[k - 1] == y);
                        assert(before.contains(y));
                        assert(picked@.take(i as int).contains(y));
                    } else {
                        assert(picked@.take(i + 1)[i as int] == y);
                    }
                }
                if picked@.take(i + 1).contains(y) {
                    let k = choose|k: int| 0 <= k < i + 1 && #[trigger] picked@.take(i + 1)[k] == y;
                    if k < i {
                        assert(picked@.take(i as int)[k] == y);
                        assert(picked@.take(i as int).contains(y));
                        assert(before.contains(y));
                        let m = choose|m: int| 0 <= m < before.len() && before[m] == y;
                        if m < j {
                            assert(r@[m] == y);
                        } else {
                            assert(r@[m + 1] == y);
                        }
                    } else {
                        assert(r@[j as int] == y);
                    }
                }
            }
        }
        i = i + 1;
    }
    assert(picked@.take(picked@.len() as int) =~= picked@);
    r
}

/// The keys the list shows, as positions: those that pass the filters, in the
/// chosen creation-time order.
pub fn visible_keys(
    keys: &[SshKey],
    query: &str,
    algorithm: &str,
    from: &str,
    to: &str,
    order: CreatedAtSort,
) -> (r: Vec<usize>)
    ensures
        lists_exactly(keys@, |i: int| key_visible(keys@[i], unicode_lowercase(query@), algorithm@, from@, to@), r@),
        in_listing_order(keys@, order, r@),
{
    let picked = filter_keys(keys, query, algorithm, from, to);
    let ghost keep = |i: int| key_visible(keys@[i], unicode_lowercase(query@), algorithm@, from@, to@);
    proof {
        assert(keys@.len() == keys.len());
        lemma_indices_where(keys@.len(), keep);
    }
    let r = sort_positions(keys, &picked, order);
    proof {
        assert forall|i: int| 0 <= i < keys@.len() implies (#[trigger] r@.contains(i as usize) <==> keep(i)) by {
            if picked@.contains(i as usize) {
                let k = choose|k: int| 0 <= k < picked@.len() && picked@[k] == i as usize;
                assert(keep(picked@[k] as int));
            }
        }
    }
    r
}

// ---------------------------------------------------------------------------
// Laws of the listing order
// ---------------------------------------------------------------------------

/// Two listings in the same strict order with the same positions are the same
/// listing.
proof fn lemma_listing_unique(keys: Seq<SshKey>, order: CreatedAtSort, r1: Seq<usize>, r2: Seq<usize>)
    requires
        in_listing_order(keys, order, r1),
        in_listing_order(keys, order, r2),
        forall|x: usize| #![trigger r1.contains(x)] #![trigger r2.contains(x)] r1.contains(x) <==> r2.contains(x),
    ensures
        r1 == r2,
    decreases r1.len() + r2.len(),
{
    if r1.len() == 0 {
        if r2.len() > 0 {
            assert(r2.contains(r2[0]));
        }
        assert(r1 =~= r2);
    } else if r2.len() == 0 {
        assert(r1.contains(r1[0]));
    } else {
        // The first elements agree: each is listed before every other element.
        let x = r1[0];
        let y = r2[0];
        assert(r1.contains(x));
        assert(r2.contains(y));
        if x != y {
            let ky = choose|k: int| 0 <= k < r1.len() && r1[k] == y;
            let kx = choose|k: int| 0 <= k < r2.len() && r2[k] == x;
            assert(ky > 0);
            assert(kx > 0);
            assert(listed_before(keys, order, x as int, y as int));
            assert(listed_before(keys, order, y as int, x as int));
            lemma_listed_before_strict(keys, order, x as int, y as int, x as int);
        }
        let t1 = r1.drop_first();
        let t2 = r2.drop_first();
        assert forall|z: usize| #![trigger t1.contains(z)] #![trigger t2.contains(z)] t1.contains(z) <==> t2.contains(z) by {
            if t1.contains(z) {
                let k = choose|k: int| 0 <= k < t1.len() && t1[k] == z;
                assert(r1[k + 1] == z);
                assert(r2.contains(z));
                let m = choose|m: int| 0 <= m < r2.len() && r2[m] == z;
                if m == 0 {
                    assert(listed_before(keys, order, r1[0] as int, r1[k + 1] as int));
                    lemma_listed_before_strict(keys, order, z as int, z as int, z as int);
                }
                assert(t2[m - 1] == z);
            }
            if t2.contains(z) {
                let k = choose|k: int| 0 <= k < t2.len() && t2[k] == z;
                assert(r2[k + 1] == z);
                assert(r1.contains(z));
                let m = choose|m: int| 0 <= m < r1.len() && r1[m] == z;
                if m == 0 {
                    assert(listed_before(keys, order, r2[0] as int, r2[k + 1] as int));
                    lemma_listed_before_strict(keys, order, z as int, z as int, z as int);
                }
                assert(t1[m - 1] == z);
            }
        }
        assert forall|a: int, b: int| 0 <= a < b < t1.len() implies listed_before(
            keys,
            order,
            #[trigger] t1[a] as int,
            #[trigger] t1[b] as int,
        ) by {
            assert(t1[a] == r1[a + 1] && t1[b] == r1[b + 1]);
        }
        assert forall|a: int, b: int| 0 <= a < b < t2.len() implies listed_before(
            keys,
            order,
            #[trigger] t2[a] as int,
            #[trigger] t2[b] as int,
        ) by {
            assert(t2[a] == r2[a + 1] && t2[b] == r2[b + 1]);
        }
        lemma_listing_unique(keys, order, t1, t2);
        assert(r1 =~= seq![x] + t1);
        assert(r2 =~= seq![y] + t2);
    }
}

/// Switching the creation-time direction shows the same keys in exactly the
/// reverse order: a listing newest first is the oldest-first listing of the
/// same keys read backwards.
pub proof fn law_directions_reverse(keys: Seq<SshKey>, keep: spec_fn(int) -> bool, asc: Seq<usize>, desc: Seq<usize>)
    requires
        lists_exactly(keys, keep, asc),
        lists_exactly(keys, keep, desc),
        in_listing_order(keys, CreatedAtSort::Asc, asc),
        in_listing_order(keys, CreatedAtSort::Desc, desc),
    ensures
        desc == asc.reverse(),
{
    let rev = asc.reverse();
    assert forall|a: int, b: int| 0 <= a < b < rev.len() implies listed_before(
        keys,
        CreatedAtSort::Desc,
        #[trigger] rev[a] as int,
        #[trigger] rev[b] as int,
    ) by {
        let n = asc.len() as int;
        assert(rev[a] == asc[n - 1 - a] && rev[b] == asc[n - 1 - b]);
        assert(listed_before(keys, CreatedAtSort::Asc, asc[n - 1 - b] as int, asc[n - 1 - a] as int));
    }
    assert forall|x: usize| #![trigger rev.contains(x)] #![trigger desc.contains(x)] rev.contains(x) <==> desc.contains(x) by {
        let n = asc.len() as int;
        if rev.contains(x) {
            let k = choose|k: int| 0 <= k < rev.len() && rev[k] == x;
            assert(asc[n - 1 - k] == x);
            assert(asc.contains(x));
            assert(x < keys.len());
            assert(asc.contains(x as int as usize));
        }
        if desc.contains(x) {
            let k = choose|k: int| 0 <= k < desc.len() && desc[k] == x;
            assert(x < keys.len());
            assert(desc.contains(x as int as usize));
            assert(asc.contains(x as int as usize));
            let m = choose|m: int| 0 <= m < asc.len() && asc[m] == x;
            assert(rev[n - 1 - m] == x);
        }
    }
    lemma_listing_unique(keys, CreatedAtSort::Desc, rev, desc);
}

// ---------------------------------------------------------------------------
// Forms
// ---------------------------------------------------------------------------

/// The algorithm a new key starts with.
pub const DEFAULT_KEY_ALGORITHM: &'static str = "ed25519";

/// The algorithms a key can be created with: value and label key.
pub fn key_algorithm_choices() -> (r: Vec<(&'static str, &'static str)>)
    ensures
        r@.len() == 3,
        r@[0].0@ == "ed25519"@ && r@[0].1@ == "keys.algorithm_ed25519"@,
        r@[1].0@ == "rsa2048"@ && r@[1].1@ == "keys.algorithm_rsa2048"@,
        r@[2].0@ == "rsa4096"@ && r@[2].1@ == "keys.algorithm_rsa4096"@,
{
    vec![
        ("ed25519", "keys.algorithm_ed25519"),
        ("rsa2048", "keys.algorithm_rsa2048"),
        ("rsa4096", "keys.algorithm_rsa4096"),
    ]
}

/// The algorithm filter's values; the empty value means every algorithm and
/// is labelled by a string-table key, the others by their display names.
pub fn algorithm_filter_choices() -> (r: Vec<(&'static str, &'static str)>)
    ensures
        r@.len() == 4,
        r@[0].0@ == ""@ && r@[0].1@ == "keys.filter_algorithm_all"@,
        r@[1].0@ == "ed25519"@ && r@[1].1@ == "Ed25519"@,
        r@[2].0@ == "rsa2048"@ && r@[2].1@ == "RSA 2048"@,
        r@[3].0@ == "rsa4096"@ && r@[3].1@ == "RSA 4096"@,
{
    vec![
        ("", "keys.filter_algorithm_all"),
        ("ed25519", "Ed25519"),
        ("rsa2048", "RSA 2048"),
        ("rsa4096", "RSA 4096"),
    ]
}

/// Why a key form cannot be sent.
#[derive(Debug, Clone, Copy, PartialEq, Eq, Structural)]
pub enum KeyFormError {
    /// A required field is empty once trimmed.
    Required,
}

/// What the create form sends: trimmed directory, comment and remark, and the
/// chosen algorithm as it is.
pub struct NewKeyRequest {
    pub directory: String,
    pub algorithm: String,
    pub comment: String,
    pub remark: String,
}

/// Check the create form. The directory and the comment are required once
/// trimmed; the remark may be empty.
pub fn validate_new_key(directory: &str, algorithm: &str, comment: &str, remark: &str) -> (r: Result<
    NewKeyRequest,
    KeyFormError,
>)
    ensures
        r is Ok <==> trim_seq(directory@).len() > 0 && trim_seq(comment@).len() > 0,
        r matches Ok(v) ==> v.directory@ == trim_seq(directory@) && v.algorithm@ == algorithm@ && v.comment@
            == trim_seq(comment@) && v.remark@ == trim_seq(remark@),
        r matches Err(e) ==> e == KeyFormError::Required,
{
    let d = trim(directory);
    let c = trim(comment);
    let m = trim(remark);
    if d.len() == 0 || c.len() == 0 {
        return Err(KeyFormError::Required);
    }
    Ok(
        NewKeyRequest {
            directory: string_of(&d),
            algorithm: String::from_str(algorithm),
            comment: string_of(&c),
            remark: string_of(&m),
        },
    )
}

/// What the edit form sends: trimmed directory and remark.
pub struct KeyEditRequest {
    pub directory: String,
    pub remark: String,
}

/// Check the edit form: the directory is required once trimmed.
pub fn validate_key_edit(directory: &str, remark: &str) -> (r: Result<KeyEditRequest, KeyFormError>)
    ensures
        r is Ok <==> trim_seq(directory@).len() > 0,
        r matches Ok(v) ==> v.directory@ == trim_seq(directory@) && v.remark@ == trim_seq(remark@),
        r matches Err(e) ==> e == KeyFormError::Required,
{
    let d = trim(directory);
    let m = trim(remark);
    if d.len() == 0 {
        return Err(KeyFormError::Required);
    }
    Ok(KeyEditRequest { directory: string_of(&d), remark: string_of(&m) })
}

// ---------------------------------------------------------------------------
// Cells and dropdowns
// ---------------------------------------------------------------------------

/// Whether a table cell offers its full text in a hover bubble: the text is
/// not blank and is not the em-dash placeholder.
pub fn cell_has_bubble(bubble: &str) -> (r: bool)
    ensures
        r == (trim_seq(bubble@).len() > 0 && bubble@ != "—"@),
{
    let t = trim(bubble);
    t.len() > 0 && !str_eq(bubble, "—")
}

/// Position of the option whose value is the selected one; the dropdown's
/// label is that option's text, or empty when there is none.
pub fn selected_option(options: &[(String, String)], selected: &str) -> (r: Option<usize>)
    ensures
        r matches Some(k) ==> k < options@.len() && options@[k as int].0@ == selected@ && forall|j: int|
            0 <= j < k ==> (#[trigger] options@[j]).0@ != selected@,
        r is None ==> forall|j: int| 0 <= j < options@.len() ==> (#[trigger] options@[j]).0@ != selected@,
{
    let mut i: usize = 0;
    while i < options.len()
        invariant
            i <= options@.len(),
            forall|j: int| 0 <= j < i ==> (#[trigger] options@[j]).0@ != selected@,
        decreases options@.len() - i,
    {
        if str_eq(options[i].0.as_str(), selected) {
            return Some(i);
        }
        i = i + 1;
    }
    None
}


/// What a key action (copy, edit) does once the host said whether the key's
/// files are still on disk.
pub enum KeyFilesCheck {
    /// The files are there: go on.
    Proceed,
    /// The files are gone: offer to remove the stale record.
    Missing,
    /// The check failed: show this error.
    Failed(String),
}

/// The step after the files check.
pub fn key_files_check(result: Result<bool, String>) -> (r: KeyFilesCheck)
    ensures
        result matches Ok(b) ==> (if b { r is Proceed } else { r is Missing }),
        result matches Err(e) ==> (r matches KeyFilesCheck::Failed(m) && m == e),
{
    match result {
        Ok(true) => KeyFilesCheck::Proceed,
        Ok(false) => KeyFilesCheck::Missing,
        Err(e) => KeyFilesCheck::Failed(e),
    }
}


// ---------------------------------------------------------------------------
// Dialog flow
// ---------------------------------------------------------------------------

/// The message a key dialog shows.
#[derive(Debug, Clone, PartialEq, Eq)]
pub enum DialogError {
    /// A required field is blank (shown as the "required" string).
    Required,
    /// The host refused, with this message.
    Host(String),
}

/// The create or edit dialog: whether it is shown, whether a host call is
/// running, and the message it shows.
pub struct KeyDialog {
    pub open: bool,
    pub busy: bool,
    pub error: Option<DialogError>,
}

/// What the edit dialog does after the files check.
#[derive(Debug, Clone, Copy, PartialEq, Eq, Structural)]
pub enum EditNext {
    /// Send the update.
    Update,
    /// The key's files are gone: the dialog closed; offer to remove the record.
    Missing,
    /// The check failed: the error is shown.
    Stop,
}

impl KeyDialog {
    /// A hidden dialog.
    pub fn closed() -> (d: Self)
        ensures
            !d.open,
            !d.busy,
            d.error is None,
    {
        KeyDialog { open: false, busy: false, error: None }
    }

    /// Show the dialog with no message (its fields are reset or seeded).
    pub fn show(&mut self)
        ensures
            final(self).open,
            final(self).busy == old(self).busy,
            final(self).error is None,
    {
        self.open = true;
        self.error = None;
    }

    /// Submitting the create form: a blank directory or comment shows the
    /// "required" message and sends nothing; otherwise the request to send
    /// is returned, the dialog is busy and the message cleared.
    pub fn submit_create(&mut self, directory: &str, algorithm: &str, comment: &str, remark: &str) -> (r: Option<
        NewKeyRequest,
    >)
        ensures
            final(self).open == old(self).open,
            r is Some <==> trim_seq(directory@).len() > 0 && trim_seq(comment@).len() > 0,
            r matches Some(v) ==> v.directory@ == trim_seq(directory@) && v.algorithm@ == algorithm@ && v.comment@
                == trim_seq(comment@) && v.remark@ == trim_seq(remark@) && final(self).busy
                && final(self).error is None,
            r is None ==> final(self).error == Some(DialogError::Required) && final(self).busy == old(self).busy,
    {
        match validate_new_key(directory, algorithm, comment, remark) {
            Ok(v) => {
                self.busy = true;
                self.error = None;
                Some(v)
            },
            Err(_) => {
                self.error = Some(DialogError::Required);
                None
            },
        }
    }

    /// The host answered the create call: on success the dialog closes and
    /// the caller is told (`true`); on failure the host's message is shown and
    /// the dialog stays open. Either way it is no longer busy.
    pub fn finish_create(&mut self, result: Result<SshKey, String>) -> (created: bool)
        ensures
            !final(self).busy,
            created == result is Ok,
            result is Ok ==> !final(self).open && final(self).error == old(self).error,
            result matches Err(e) ==> final(self).open == old(self).open && final(self).error == Some(DialogError::Host(e)),
    {
        self.busy = false;
        match result {
            Ok(_) => {
                self.open = false;
                true
            },
            Err(e) => {
                self.error = Some(DialogError::Host(e));
                false
            },
        }
    }

    /// Submitting the edit form: a blank directory shows the "required"
    /// message; otherwise the dialog is busy, the message cleared, and the
    /// directory and remark to send are returned (the files check comes
    /// first).
    pub fn submit_edit(&mut self, directory: &str, remark: &str) -> (r: Option<KeyEditRequest>)
        ensures
            final(self).open == old(self).open,
            r is Some <==> trim_seq(directory@).len() > 0,
            r matches Some(v) ==> v.directory@ == trim_seq(directory@) && v.remark@ == trim_seq(remark@)
                && final(self).busy && final(self).error is None,
            r is None ==> final(self).error == Some(DialogError::Required) && final(self).busy == old(self).busy,
    {
        match validate_key_edit(directory, remark) {
            Ok(v) => {
                self.busy = true;
                self.error = None;
                Some(v)
            },
            Err(_) => {
                self.error = Some(DialogError::Required);
                None
            },
        }
    }

    /// The files check of an edit answered: files present, send the update;
    /// files gone, close (the caller offers to remove the record); check
    /// failed, show its message. Only the update keeps the dialog busy.
    pub fn after_files_check(&mut self, result: Result<bool, String>) -> (r: EditNext)
        ensures
            result == Ok::<bool, String>(true) ==> r == EditNext::Update && final(self).open == old(self).open
                && final(self).busy == old(self).busy && final(self).error == old(self).error,
            result == Ok::<bool, String>(false) ==> r == EditNext::Missing && !final(self).open && !final(self).busy && final(self).error == old(self).error,
            result matches Err(e) ==> r == EditNext::Stop && final(self).open == old(self).open && !final(self).busy && final(self).error == Some(DialogError::Host(e)),
    {
        match key_files_check(result) {
            KeyFilesCheck::Proceed => EditNext::Update,
            KeyFilesCheck::Missing => {
                self.open = false;
                self.busy = false;
                EditNext::Missing
            },
            KeyFilesCheck::Failed(e) => {
                self.busy = false;
                self.error = Some(DialogError::Host(e));
                EditNext::Stop
            },
        }
    }

    /// The host answered the update: on success the dialog closes and the
    /// caller is told (`true`); on failure the message is shown. Either way it
    /// is no longer busy.
    pub fn finish_edit(&mut self, result: Result<SshKey, String>) -> (updated: bool)
        ensures
            !final(self).busy,
            updated == result is Ok,
            result is Ok ==> !final(self).open && final(self).error == old(self).error,
            result matches Err(e) ==> final(self).open == old(self).open && final(self).error == Some(DialogError::Host(e)),
    {
        self.finish_create(result)
    }
}

/// The search looks at a key's directory, comment and remark. For a
/// non-empty (lower-cased) query, a key is listed exactly when the query
/// occurs in one of those three, lower-cased, and the key is listed with the
/// same filters and no query; so a key whose comment (or directory, or
/// remark) holds the query is listed whatever the other two hold.
pub proof fn law_key_search_fields(
    keys: Seq<SshKey>,
    q: Seq<char>,
    algorithm: Seq<char>,
    from: Seq<char>,
    to: Seq<char>,
    i: int,
)
    requires
        keys.len() <= usize::MAX,
        0 <= i < keys.len(),
        q.len() > 0,
    ensures
        indices_where(keys.len(), |j: int| key_visible(keys[j], q, algorithm, from, to)).contains(i as usize)
            <==> ((has_infix(unicode_lowercase(keys[i].directory@), q) || has_infix(
            unicode_lowercase(keys[i].comment@),
            q,
        ) || has_infix(unicode_lowercase(keys[i].remark@), q)) && indices_where(
            keys.len(),
            |j: int| key_visible(keys[j], Seq::empty(), algorithm, from, to),
        ).contains(i as usize)),
        has_infix(unicode_lowercase(keys[i].comment@), q) ==> (indices_where(
            keys.len(),
            |j: int| key_visible(keys[j], q, algorithm, from, to),
        ).contains(i as usize) <==> indices_where(
            keys.len(),
            |j: int| key_visible(keys[j], Seq::empty(), algorithm, from, to),
        ).contains(i as usize)),
{
    lemma_indices_where_contains(keys.len(), |j: int| key_visible(keys[j], q, algorithm, from, to), i);
    lemma_indices_where_contains(keys.len(), |j: int| key_visible(keys[j], Seq::empty(), algorithm, from, to), i);
}

/// The algorithm and date filters narrow the list. Choosing an algorithm
/// keeps exactly the listed keys of that algorithm. A start date keeps
/// exactly the listed keys created on or after it, and an end date those
/// created on or before it, comparing the creation time's date part
/// (`YYYY-MM-DD`) as text.
pub proof fn law_key_filters_narrow(
    keys: Seq<SshKey>,
    q: Seq<char>,
    algorithm: Seq<char>,
    from: Seq<char>,
    to: Seq<char>,
    i: int,
)
    requires
        keys.len() <= usize::MAX,
        0 <= i < keys.len(),
    ensures
        algorithm.len() > 0 ==> (indices_where(keys.len(), |j: int| key_visible(keys[j], q, algorithm, from, to)).contains(
            i as usize,
        ) <==> (keys[i].algorithm@ == algorithm && indices_where(
            keys.len(),
            |j: int| key_visible(keys[j], q, Seq::empty(), from, to),
        ).contains(i as usize))),
        from.len() > 0 ==> (indices_where(keys.len(), |j: int| key_visible(keys[j], q, algorithm, from, to)).contains(
            i as usize,
        ) <==> (!bytes_lt(date_key(text_bytes(keys[i].created_at)), encode_utf8(from)) && indices_where(
            keys.len(),
            |j: int| key_visible(keys[j], q, algorithm, Seq::empty(), to),
        ).contains(i as usize))),
        to.len() > 0 ==> (indices_where(keys.len(), |j: int| key_visible(keys[j], q, algorithm, from, to)).contains(
            i as usize,
        ) <==> (!bytes_lt(encode_utf8(to), date_key(text_bytes(keys[i].created_at))) && indices_where(
            keys.len(),
            |j: int| key_visible(keys[j], q, algorithm, from, Seq::empty()),
        ).contains(i as usize))),
{
    lemma_indices_where_contains(keys.len(), |j: int| key_visible(keys[j], q, algorithm, from, to), i);
    lemma_indices_where_contains(keys.len(), |j: int| key_visible(keys[j], q, Seq::empty(), from, to), i);
    lemma_indices_where_contains(keys.len(), |j: int| key_visible(keys[j], q, algorithm, Seq::empty(), to), i);
    lemma_indices_where_contains(keys.len(), |j: int| key_visible(keys[j], q, algorithm, from, Seq::empty()), i);
}

/// Newest first means what it says: in a list in `Desc` order no key comes
/// before a key created later, and in `Asc` order no key comes before one
/// created earlier (creation times compared as text). Keys created at the
/// same time keep their stored order in `Asc` and the reverse in `Desc`.
pub proof fn law_created_at_order(keys: Seq<SshKey>, order: CreatedAtSort, r: Seq<usize>, a: int, b: int)
    requires
        in_listing_order(keys, order, r),
        0 <= a < b < r.len(),
    ensures
        order == CreatedAtSort::Desc ==> !bytes_lt(
            text_bytes(keys[r[a] as int].created_at),
            text_bytes(keys[r[b] as int].created_at),
        ),
        order == CreatedAtSort::Asc ==> !bytes_lt(
            text_bytes(keys[r[b] as int].created_at),
            text_bytes(keys[r[a] as int].created_at),
        ),
        text_bytes(keys[r[a] as int].created_at) == text_bytes(keys[r[b] as int].created_at) ==> (order
            == CreatedAtSort::Asc ==> r[a] < r[b]) && (order == CreatedAtSort::Desc ==> r[a] > r[b]),
{
    let x = text_bytes(keys[r[a] as int].created_at);
    let y = text_bytes(keys[r[b] as int].created_at);
    assert(listed_before(keys, order, r[a] as int, r[b] as int));
    lemma_bytes_irreflexive(x);
    if bytes_lt(x, y) {
        lemma_bytes_asymmetric(x, y);
    }
    if bytes_lt(y, x) {
        lemma_bytes_asymmetric(y, x);
    }
}

} // verus!
