//! Single-line JSON rendering.
//!
//! Values render by type: strings are double-quoted verbatim, integers
//! appear bare in decimal, sequences as comma-joined bracketed lists, and
//! objects recursively with double-quoted keys. A container is rendered by
//! accumulating `item,` fragments and then removing the last accumulated
//! character before the closing bracket. For an empty container nothing was
//! accumulated, so the removal takes the opening bracket itself and the
//! rendering collapses to the closing bracket alone, a deliberate quirk
//! of the accumulation rule.

use vstd::prelude::*;

verus! {

/// The decimal digit character for `d`.
pub open spec fn dec_digit(d: int) -> char
    recommends
        0 <= d <= 9,
{
    if d == 0 {
        '0'
    } else if d == 1 {
        '1'
    } else if d == 2 {
        '2'
    } else if d == 3 {
        '3'
    } else if d == 4 {
        '4'
    } else if d == 5 {
        '5'
    } else if d == 6 {
        '6'
    } else if d == 7 {
        '7'
    } else if d == 8 {
        '8'
    } else {
        '9'
    }
}

/// The decimal rendering of a nonnegative integer, most significant digit
/// first, with no sign and no leading zeros.
pub open spec fn dec_nat(n: int) -> Seq<char>
    recommends
        n >= 0,
    decreases n,
{
    if n < 10 {
        seq![dec_digit(n)]
    } else {
        dec_nat(n / 10) + seq![dec_digit(n % 10)]
    }
}

/// The decimal rendering of an integer: a leading `-` for a negative
/// value, then the digits of its magnitude.
pub open spec fn dec_int(n: int) -> Seq<char> {
    if n < 0 {
        seq!['-'] + dec_nat(-n)
    } else {
        dec_nat(n)
    }
}

/// The rendering of an accumulated container body: when nothing was
/// accumulated the removal of a trailing separator consumes the opening
/// bracket, leaving the closing bracket alone; otherwise the opening
/// bracket, the body shorn of its last character, and the closing bracket.
pub open spec fn wrap_json(body: Seq<char>, first: char, last: char) -> Seq<char> {
    if body.len() == 0 {
        seq![last]
    } else {
        seq![first] + body.drop_last() + seq![last]
    }
}

/// A value with an exact single-line JSON rendering.
pub trait ToJson {
    /// The exact character sequence this value renders to.
    spec fn json(&self) -> Seq<char>;

    /// Renders the value; the result is exactly `self.json()`.
    fn to_json(&self) -> (r: String)
        ensures
            r@ == self.json(),
    ;
}

/// The first `n` elements of `s` rendered as `elem,` fragments, in order.
pub open spec fn joined_elems<T: ToJson>(s: Seq<T>, n: int) -> Seq<char>
    recommends
        n <= s.len(),
    decreases n,
{
    if n <= 0 {
        Seq::empty()
    } else {
        joined_elems(s, n - 1) + s[n - 1].json() + seq![',']
    }
}

/// The first `n` pairs of `s` rendered as `"key":value,` fragments, the
/// key's own rendering standing between the added double quotes.
pub open spec fn joined_pairs<K: ToJson, V: ToJson>(s: Seq<(K, V)>, n: int) -> Seq<char>
    recommends
        n <= s.len(),
    decreases n,
{
    if n <= 0 {
        Seq::empty()
    } else {
        joined_pairs(s, n - 1) + seq!['"'] + s[n - 1].0.json() + seq!['"', ':'] + s[n - 1].1.json()
            + seq![',']
    }
}

impl ToJson for String {
    /// A string renders double-quoted, its characters verbatim in between.
    open spec fn json(&self) -> Seq<char> {
        seq!['"'] + self@ + seq!['"']
    }

    fn to_json(&self) -> (r: String) {
        let mut r = String::from_str("\"");
        r.append(self.as_str());
        r.append("\"");
        proof {
            reveal_strlit("\"");
            assert(r@ =~= seq!['"'] + self@ + seq!['"']);
        }
        r
    }
}

impl<'a> ToJson for &'a str {
    /// A string slice renders exactly as the owned string would.
    open spec fn json(&self) -> Seq<char> {
        seq!['"'] + self@ + seq!['"']
    }

    fn to_json(&self) -> (r: String) {
        let mut r = String::from_str("\"");
        r.append(*self);
        r.append("\"");
        proof {
            reveal_strlit("\"");
            assert(r@ =~= seq!['"'] + self@ + seq!['"']);
        }
        r
    }
}

impl ToJson for i32 {
    /// An integer renders bare, in decimal.
    open spec fn json(&self) -> Seq<char> {
        dec_int(*self as int)
    }

    fn to_json(&self) -> (r: String) {
        int32_string(*self)
    }
}

impl<T: ToJson> ToJson for Vec<T> {
    /// A sequence renders as a comma-joined bracketed list; empty collapses
    /// to `]` by the accumulated-body rule.
    open spec fn json(&self) -> Seq<char> {
        wrap_json(joined_elems(self@, self@.len() as int), '[', ']')
    }

    fn to_json(&self) -> (r: String) {
        let mut body = String::new();
        let n = self.len();
        let mut i: usize = 0;
        while i < n
            invariant
                i <= n,
                n == self@.len(),
                body@ == joined_elems(self@, i as int),
            decreases n - i,
        {
            let item = self[i].to_json();
            body.append(item.as_str());
            body.append(",");
            proof {
                reveal_strlit(",");
                assert(body@ =~= joined_elems(self@, i as int + 1));
            }
            i = i + 1;
        }
        proof {
            reveal_strlit("[");
            reveal_strlit("]");
        }
        close_json(body, "[", "]")
    }
}

impl<T: ToJson, const N: usize> ToJson for [T; N] {
    /// An array renders exactly as the same elements in a vector would.
    open spec fn json(&self) -> Seq<char> {
        wrap_json(joined_elems(self@, self@.len() as int), '[', ']')
    }

    fn to_json(&self) -> (r: String) {
        let mut body = String::new();
        let mut i: usize = 0;
        while i < N
            invariant
                i <= N,
                self@.len() == N,
                body@ == joined_elems(self@, i as int),
            decreases N - i,
        {
            let item = self[i].to_json();
            body.append(item.as_str());
            body.append(",");
            proof {
                reveal_strlit(",");
                assert(body@ =~= joined_elems(self@, i as int + 1));
            }
            i = i + 1;
        }
        proof {
            reveal_strlit("[");
            reveal_strlit("]");
        }
        close_json(body, "[", "]")
    }
}

/// A keyed collection of pairs that renders as a JSON object. Insertion
/// order is kept and determines rendering order, and keys stay unique —
/// two keys count as the same when their renderings agree, which is how
/// the rendered object tells them apart.
pub struct JsonObject<K: ToJson, V: ToJson> {
    pairs: Vec<(K, V)>,
}

impl<K: ToJson, V: ToJson> View for JsonObject<K, V> {
    type V = Seq<(K, V)>;

    closed spec fn view(&self) -> Seq<(K, V)> {
        self.pairs@
    }
}

/// The index of the first pair at or after `i` whose key renders as `kj`,
/// or `pairs.len()` if no key does.
pub open spec fn find_pair_from<K: ToJson, V>(pairs: Seq<(K, V)>, kj: Seq<char>, i: int) -> int
    recommends
        0 <= i <= pairs.len(),
    decreases pairs.len() - i,
{
    if i < 0 || i >= pairs.len() {
        pairs.len() as int
    } else if pairs[i].0.json() == kj {
        i
    } else {
        find_pair_from(pairs, kj, i + 1)
    }
}

/// The index of the pair keyed by a key rendering as `kj`, or `pairs.len()`.
pub open spec fn find_pair<K: ToJson, V>(pairs: Seq<(K, V)>, kj: Seq<char>) -> int {
    find_pair_from(pairs, kj, 0)
}

proof fn lemma_find_pair_from<K: ToJson, V>(pairs: Seq<(K, V)>, kj: Seq<char>, i: int)
    requires
        0 <= i <= pairs.len(),
    ensures
        ({
            let k = find_pair_from(pairs, kj, i);
            &&& i <= k <= pairs.len()
            &&& (k < pairs.len() ==> pairs[k].0.json() == kj)
            &&& (forall|j: int| i <= j < k ==> pairs[j].0.json() != kj)
        }),
    decreases pairs.len() - i,
{
    if i < pairs.len() && pairs[i].0.json() != kj {
        lemma_find_pair_from(pairs, kj, i + 1);
    }
}

impl<K: ToJson, V: ToJson> JsonObject<K, V> {
    /// Keys render pairwise differently, so a rendered object never
    /// repeats a key.
    #[verifier::type_invariant]
    closed spec fn wf(self) -> bool {
        forall|i: int, j: int| 0 <= i < j < self@.len() ==> self@[i].0.json() != self@[j].0.json()
    }

    /// An empty object; it renders as `}` by the accumulated-body rule.
    pub fn new() -> (r: Self)
        ensures
            r@ == Seq::<(K, V)>::empty(),
    {
        let r = JsonObject { pairs: Vec::new() };
        proof {
            assert(r@ =~= Seq::<(K, V)>::empty());
        }
        r
    }

    /// Binds `value` to `key`: overwrites the pair whose key renders the
    /// same, or appends a new pair.
    pub fn insert(&mut self, key: K, value: V)
        ensures
            ({
                let k = find_pair(old(self)@, key.json());
                if k < old(self)@.len() {
                    final(self)@ == old(self)@.update(k, (key, value))
                } else {
                    final(self)@ == old(self)@.push((key, value))
                }
            }),
    {
        proof {
            use_type_invariant(&*self);
            lemma_find_pair_from(old(self)@, key.json(), 0);
        }
        let ghost orig = self@;
        let mut pairs: Vec<(K, V)> = Vec::new();
        std::mem::swap(&mut pairs, &mut self.pairs);
        let kj = key.to_json();
        let n = pairs.len();
        let mut i: usize = 0;
        let mut idx: usize = n;
        while i < n && idx == n
            invariant
                i <= n,
                idx <= n,
                n == pairs.len(),
                pairs@ == orig,
                kj@ == key.json(),
                idx == n ==> find_pair(orig, key.json()) == find_pair_from(orig, key.json(), i as int),
                idx < n ==> idx == find_pair(orig, key.json()),
            decreases n - i + (if idx == n { 1int } else { 0int }),
        {
            let pj = pairs[i].0.to_json();
            if pj == kj {
                idx = i;
            } else {
                i = i + 1;
            }
        }
        if idx < n {
            pairs.set(idx, (key, value));
        } else {
            pairs.push((key, value));
        }
        proof {
            let k = find_pair(orig, key.json());
            if k < orig.len() {
                assert(pairs@ =~= orig.update(k, (key, value)));
                assert(forall|p: int| 0 <= p < orig.len() ==>
                    #[trigger] pairs@[p].0.json() == orig[p].0.json());
            } else {
                assert(pairs@ =~= orig.push((key, value)));
                assert(forall|j: int| 0 <= j < orig.len() ==> orig[j].0.json() != key.json());
            }
        }
        std::mem::swap(&mut pairs, &mut self.pairs);
    }
}

impl<K: ToJson, V: ToJson> ToJson for JsonObject<K, V> {
    /// An object renders its pairs in insertion order as `"key":value`
    /// fragments, comma-joined and braced; empty collapses to `}`.
    open spec fn json(&self) -> Seq<char> {
        wrap_json(joined_pairs(self@, self@.len() as int), '{', '}')
    }

    fn to_json(&self) -> (r: String) {
        let mut body = String::new();
        let n = self.pairs.len();
        let mut i: usize = 0;
        while i < n
            invariant
                i <= n,
                n == self@.len(),
                body@ == joined_pairs(self@, i as int),
            decreases n - i,
        {
            let kj = self.pairs[i].0.to_json();
            let vj = self.pairs[i].1.to_json();
            body.append("\"");
            body.append(kj.as_str());
            body.append("\":");
            body.append(vj.as_str());
            body.append(",");
            proof {
                reveal_strlit("\"");
                reveal_strlit("\":");
                reveal_strlit(",");
                assert("\":"@ =~= seq!['"', ':']);
                assert(body@ =~= joined_pairs(self@, i as int + 1));
            }
            i = i + 1;
        }
        proof {
            reveal_strlit("{");
            reveal_strlit("}");
        }
        close_json(body, "{", "}")
    }
}

/// The contents of a list of keys in plain string form beside values
/// already rendered as JSON.
pub open spec fn entries_view(pairs: Seq<(String, String)>) -> Seq<(Seq<char>, Seq<char>)> {
    pairs.map_values(|p: (String, String)| (p.0@, p.1@))
}

/// The first `n` entries rendered as `"key":value,` fragments: the key's
/// characters verbatim between added double quotes, the value verbatim.
pub open spec fn joined_entries(s: Seq<(Seq<char>, Seq<char>)>, n: int) -> Seq<char>
    recommends
        n <= s.len(),
    decreases n,
{
    if n <= 0 {
        Seq::empty()
    } else {
        joined_entries(s, n - 1) + seq!['"'] + s[n - 1].0 + seq!['"', ':'] + s[n - 1].1 + seq![',']
    }
}

/// Renders an object out of keys in their plain string form and values
/// already rendered: `{"key":value,...}` shorn of the trailing separator,
/// collapsing to `}` when no pairs were given.
pub fn json_object_body(pairs: &Vec<(String, String)>) -> (r: String)
    ensures
        r@ == wrap_json(joined_entries(entries_view(pairs@), pairs@.len() as int), '{', '}'),
{
    let mut body = String::new();
    let n = pairs.len();
    let mut i: usize = 0;
    while i < n
        invariant
            i <= n,
            n == pairs@.len(),
            body@ == joined_entries(entries_view(pairs@), i as int),
        decreases n - i,
    {
        body.append("\"");
        body.append(pairs[i].0.as_str());
        body.append("\":");
        body.append(pairs[i].1.as_str());
        body.append(",");
        proof {
            reveal_strlit("\"");
            reveal_strlit("\":");
            reveal_strlit(",");
            assert("\":"@ =~= seq!['"', ':']);
            assert(entries_view(pairs@)[i as int] == (pairs@[i as int].0@, pairs@[i as int].1@));
            assert(body@ =~= joined_entries(entries_view(pairs@), i as int + 1));
        }
        i = i + 1;
    }
    proof {
        reveal_strlit("{");
        reveal_strlit("}");
    }
    close_json(body, "{", "}")
}

/// The digit characters of `d`.
fn digit_string(d: u64) -> (r: String)
    requires
        d < 10,
    ensures
        r@ == seq![dec_digit(d as int)],
{
    let r = if d == 0 {
        String::from_str("0")
    } else if d == 1 {
        String::from_str("1")
    } else if d == 2 {
        String::from_str("2")
    } else if d == 3 {
        String::from_str("3")
    } else if d == 4 {
        String::from_str("4")
    } else if d == 5 {
        String::from_str("5")
    } else if d == 6 {
        String::from_str("6")
    } else if d == 7 {
        String::from_str("7")
    } else if d == 8 {
        String::from_str("8")
    } else {
        String::from_str("9")
    };
    proof {
        reveal_strlit("0");
        reveal_strlit("1");
        reveal_strlit("2");
        reveal_strlit("3");
        reveal_strlit("4");
        reveal_strlit("5");
        reveal_strlit("6");
        reveal_strlit("7");
        reveal_strlit("8");
        reveal_strlit("9");
        assert(r@ =~= seq![dec_digit(d as int)]);
    }
    r
}

/// The decimal digits of `m`, most significant first.
fn dec_string(m: u64) -> (r: String)
    ensures
        r@ == dec_nat(m as int),
    decreases m,
{
    if m < 10 {
        digit_string(m)
    } else {
        proof {
            assert(m / 10 < m) by (nonlinear_arith)
                requires
                    m >= 10,
            ;
        }
        let mut s = dec_string(m / 10);
        let d = digit_string(m % 10);
        s.append(d.as_str());
        s
    }
}

/// The decimal rendering of `x`, with a leading `-` when negative.
fn int32_string(x: i32) -> (r: String)
    ensures
        r@ == dec_int(x as int),
{
    if x >= 0 {
        dec_string(x as u64)
    } else {
        let v: i64 = x as i64;
        let m: u64 = (-v) as u64;
        let d = dec_string(m);
        let mut r = String::from_str("-");
        r.append(d.as_str());
        proof {
            reveal_strlit("-");
            assert(r@ =~= seq!['-'] + dec_nat(-(x as int)));
        }
        r
    }
}

/// Closes an accumulated container body: removes its last character and
/// brackets it, or yields the closing bracket alone when it is empty.
fn close_json(body: String, first: &str, last: &str) -> (r: String)
    requires
        first@.len() == 1,
        last@.len() == 1,
    ensures
        r@ == wrap_json(body@, first@[0], last@[0]),
{
    let n = body.as_str().unicode_len();
    if n == 0 {
        let r = last.to_owned();
        proof {
            assert(r@ =~= seq![last@[0]]);
        }
        r
    } else {
        let trimmed = body.as_str().substring_char(0, n - 1);
        let mut r = first.to_owned();
        r.append(trimmed);
        r.append(last);
        proof {
            assert(r@ =~= seq![first@[0]] + body@.drop_last() + seq![last@[0]]);
        }
        r
    }
}

} // verus!
