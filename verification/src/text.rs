//! Text building blocks: decimal rendering, debug quoting of strings,
//! joining, and a stable lexicographic ordering of strings.

use vstd::prelude::*;

verus! {

// ---------------------------------------------------------------------------
// Decimal rendering
// ---------------------------------------------------------------------------

/// The character of a decimal digit.
pub open spec fn digit_char(d: nat) -> char {
    if d == 0 { '0' }
    else if d == 1 { '1' }
    else if d == 2 { '2' }
    else if d == 3 { '3' }
    else if d == 4 { '4' }
    else if d == 5 { '5' }
    else if d == 6 { '6' }
    else if d == 7 { '7' }
    else if d == 8 { '8' }
    else { '9' }
}

/// The decimal representation of a natural number, without leading zeros.
pub open spec fn decimal(n: nat) -> Seq<char>
    decreases n,
{
    if n < 10 {
        seq![digit_char(n)]
    } else {
        decimal(n / 10).push(digit_char(n % 10))
    }
}

fn digit_str(d: usize) -> (s: &'static str)
    requires
        d < 10,
    ensures
        s@ == seq![digit_char(d as nat)],
{
    if d == 0 {
        proof { reveal_strlit("0"); }
        "0"
    } else if d == 1 {
        proof { reveal_strlit("1"); }
        "1"
    } else if d == 2 {
        proof { reveal_strlit("2"); }
        "2"
    } else if d == 3 {
        proof { reveal_strlit("3"); }
        "3"
    } else if d == 4 {
        proof { reveal_strlit("4"); }
        "4"
    } else if d == 5 {
        proof { reveal_strlit("5"); }
        "5"
    } else if d == 6 {
        proof { reveal_strlit("6"); }
        "6"
    } else if d == 7 {
        proof { reveal_strlit("7"); }
        "7"
    } else if d == 8 {
        proof { reveal_strlit("8"); }
        "8"
    } else {
        proof { reveal_strlit("9"); }
        "9"
    }
}

/// Append the decimal representation of `n` to `out`.
pub fn push_decimal(out: &mut String, n: usize)
    ensures
        final(out)@ == old(out)@ + decimal(n as nat),
    decreases n,
{
    if n < 10 {
        out.append(digit_str(n));
    } else {
        push_decimal(out, n / 10);
        out.append(digit_str(n % 10));
        assert(decimal(n as nat) =~= decimal((n / 10) as nat).push(digit_char((n % 10) as nat)));
    }
}

/// Append a string slice to `out`.
pub fn push_str(out: &mut String, s: &str)
    ensures
        final(out)@ == old(out)@ + s@,
{
    out.append(s);
}

/// A fresh string holding the characters of `s`.
pub fn owned(s: &str) -> (r: String)
    ensures
        r@ == s@,
{
    String::from_str(s)
}

// ---------------------------------------------------------------------------
// Debug quoting
// ---------------------------------------------------------------------------

/// How one character appears inside a debug-quoted string.
pub open spec fn escape_char(c: char) -> Seq<char> {
    if c == '"' {
        seq!['\\', '"']
    } else if c == '\\' {
        seq!['\\', '\\']
    } else if c == '\n' {
        seq!['\\', 'n']
    } else if c == '\r' {
        seq!['\\', 'r']
    } else if c == '\t' {
        seq!['\\', 't']
    } else if c == '\0' {
        seq!['\\', '0']
    } else if (c as nat) < 0x20 || (c as nat) == 0x7f {
        seq!['\\', 'u', '{'] + hex_small(c as nat) + seq!['}']
    } else {
        seq![c]
    }
}

/// The character of a hexadecimal digit, lower case.
pub open spec fn hex_digit(d: nat) -> char {
    if d < 10 { digit_char(d) }
    else if d == 10 { 'a' }
    else if d == 11 { 'b' }
    else if d == 12 { 'c' }
    else if d == 13 { 'd' }
    else if d == 14 { 'e' }
    else { 'f' }
}

/// The hexadecimal representation of a number below 256, without leading
/// zeros.
pub open spec fn hex_small(n: nat) -> Seq<char> {
    if n < 16 {
        seq![hex_digit(n)]
    } else {
        seq![hex_digit(n / 16), hex_digit(n % 16)]
    }
}

fn hex_digit_str(d: u32) -> (s: &'static str)
    requires
        d < 16,
    ensures
        s@ == seq![hex_digit(d as nat)],
{
    if d < 10 {
        digit_str(d as usize)
    } else if d == 10 {
        proof { reveal_strlit("a"); }
        "a"
    } else if d == 11 {
        proof { reveal_strlit("b"); }
        "b"
    } else if d == 12 {
        proof { reveal_strlit("c"); }
        "c"
    } else if d == 13 {
        proof { reveal_strlit("d"); }
        "d"
    } else if d == 14 {
        proof { reveal_strlit("e"); }
        "e"
    } else {
        proof { reveal_strlit("f"); }
        "f"
    }
}

/// The escaped body of a debug-quoted string.
pub open spec fn escape(s: Seq<char>) -> Seq<char>
    decreases s.len(),
{
    if s.len() == 0 {
        Seq::empty()
    } else {
        escape(s.drop_last()) + escape_char(s.last())
    }
}

/// A string as its debug representation shows it: quoted and escaped.
pub open spec fn debug_str(s: Seq<char>) -> Seq<char> {
    seq!['"'] + escape(s) + seq!['"']
}

/// Append the escaped form of one character, given as the one-character
/// slice `piece`.
fn push_escaped_char(out: &mut String, c: char, piece: &str)
    requires
        piece@ == seq![c],
    ensures
        final(out)@ == old(out)@ + escape_char(c),
{
    if c == '"' {
        proof { reveal_strlit("\\\""); }
        out.append("\\\"");
    } else if c == '\\' {
        proof { reveal_strlit("\\\\"); }
        out.append("\\\\");
    } else if c == '\n' {
        proof { reveal_strlit("\\n"); }
        out.append("\\n");
    } else if c == '\r' {
        proof { reveal_strlit("\\r"); }
        out.append("\\r");
    } else if c == '\t' {
        proof { reveal_strlit("\\t"); }
        out.append("\\t");
    } else if c == '\0' {
        proof { reveal_strlit("\\0"); }
        out.append("\\0");
    } else if (c as u32) < 0x20 || (c as u32) == 0x7f {
        let code = c as u32;
        proof { reveal_strlit("\\u{"); reveal_strlit("}"); }
        out.append("\\u{");
        if code >= 16 {
            out.append(hex_digit_str(code / 16));
        }
        out.append(hex_digit_str(code % 16));
        out.append("}");
    } else {
        out.append(piece);
    }
}

/// Append the debug representation of `s` to `out`.
pub fn push_debug_str(out: &mut String, s: &str)
    ensures
        final(out)@ == old(out)@ + debug_str(s@),
{
    let ghost start = out@;
    proof { reveal_strlit("\""); }
    out.append("\"");
    let n = s.unicode_len();
    let mut i: usize = 0;
    while i < n
        invariant
            n == s@.len(),
            i <= n,
            out@ == start + seq!['"'] + escape(s@.take(i as int)),
        decreases n - i,
    {
        let c = s.get_char(i);
        let piece = s.substring_char(i, i + 1);
        assert(piece@ =~= seq![c]);
        push_escaped_char(out, c, piece);
        assert(s@.take(i + 1).drop_last() =~= s@.take(i as int));
        i = i + 1;
    }
    assert(s@.take(n as int) =~= s@);
    out.append("\"");
    assert(out@ =~= start + debug_str(s@));
}

// ---------------------------------------------------------------------------
// Joining
// ---------------------------------------------------------------------------

/// The items separated by `sep`.
pub open spec fn join(items: Seq<Seq<char>>, sep: Seq<char>) -> Seq<char>
    decreases items.len(),
{
    if items.len() == 0 {
        Seq::empty()
    } else if items.len() == 1 {
        items[0]
    } else {
        join(items.drop_last(), sep) + sep + items.last()
    }
}

/// The views of a vector of strings.
pub open spec fn views(v: Seq<String>) -> Seq<Seq<char>> {
    v.map_values(|s: String| s@)
}

/// Join the strings with `sep` between consecutive items.
pub fn join_strings(items: &Vec<String>, sep: &str) -> (r: String)
    ensures
        r@ == join(views(items@), sep@),
{
    let mut out = String::new();
    let n = items.len();
    let mut i: usize = 0;
    while i < n
        invariant
            n == items@.len(),
            i <= n,
            out@ == join(views(items@).take(i as int), sep@),
        decreases n - i,
    {
        let ghost prev = views(items@).take(i as int);
        assert(views(items@).take(i + 1).drop_last() =~= prev);
        assert(views(items@).take(i + 1).last() == items@[i as int]@);
        if i > 0 {
            out.append(sep);
        } else {
            assert(views(items@).take(1) =~= seq![items@[0]@]);
            assert(out@ =~= Seq::<char>::empty());
        }
        out.append(items[i].as_str());
        if i == 0 {
            assert(out@ =~= items@[0]@);
        }
        i = i + 1;
    }
    assert(views(items@).take(n as int) =~= views(items@));
    out
}

/// The debug representation of a list of strings: `["a", "b"]`.
pub open spec fn debug_list(items: Seq<Seq<char>>) -> Seq<char> {
    seq!['['] + join(items.map_values(|s: Seq<char>| debug_str(s)), seq![',', ' ']) + seq![']']
}

/// Append the debug representation of a list of strings to `out`.
pub fn push_debug_list(out: &mut String, items: &Vec<String>)
    ensures
        final(out)@ == old(out)@ + debug_list(views(items@)),
{
    let ghost start = out@;
    let mut quoted: Vec<String> = Vec::new();
    let n = items.len();
    let mut i: usize = 0;
    while i < n
        invariant
            n == items@.len(),
            i <= n,
            quoted@.len() == i,
            forall|k: int| 0 <= k < i ==> #[trigger] quoted@[k]@ == debug_str(items@[k]@),
        decreases n - i,
    {
        let mut q = String::new();
        push_debug_str(&mut q, items[i].as_str());
        assert(q@ =~= debug_str(items@[i as int]@));
        quoted.push(q);
        i = i + 1;
    }
    proof { reveal_strlit(", "); reveal_strlit("["); reveal_strlit("]"); }
    let sep = ", ";
    assert(sep@ =~= seq![',', ' ']);
    let joined = join_strings(&quoted, sep);
    assert(views(quoted@) =~= views(items@).map_values(|s: Seq<char>| debug_str(s)));
    assert(joined@ == join(views(items@).map_values(|s: Seq<char>| debug_str(s)), seq![',', ' ']));
    out.append("[");
    assert(out@ =~= start + seq!['[']);
    out.append(joined.as_str());
    out.append("]");
    assert(out@ =~= start + seq!['['] + joined@ + seq![']']);
    assert(out@ =~= start + debug_list(views(items@)));
}

// ---------------------------------------------------------------------------
// Lexicographic order
// ---------------------------------------------------------------------------

/// `a` orders strictly before `b` when compared from position `i` on.
pub open spec fn lex_lt_from(a: Seq<char>, b: Seq<char>, i: int) -> bool
    decreases a.len() - i,
{
    if i < 0 || i >= a.len() {
        0 <= i < b.len()
    } else if i >= b.len() {
        false
    } else if a[i] == b[i] {
        lex_lt_from(a, b, i + 1)
    } else {
        (a[i] as int) < (b[i] as int)
    }
}

/// Lexicographic "strictly less than" on character sequences, the order in
/// which std compares strings.
pub open spec fn lex_lt(a: Seq<char>, b: Seq<char>) -> bool {
    lex_lt_from(a, b, 0)
}

proof fn lemma_lex_from_trichotomy(a: Seq<char>, b: Seq<char>, i: int)
    requires
        0 <= i <= a.len(),
        i <= b.len(),
        a.take(i) == b.take(i),
    ensures
        lex_lt_from(a, b, i) || a == b || lex_lt_from(b, a, i),
        !(lex_lt_from(a, b, i) && lex_lt_from(b, a, i)),
        !(lex_lt_from(a, b, i) && a == b),
    decreases a.len() - i,
{
    if i == a.len() || i == b.len() {
        if i == a.len() && i == b.len() {
            assert(a =~= a.take(i));
            assert(b =~= b.take(i));
            assert(a == b);
        } else if i == a.len() {
            assert(lex_lt_from(a, b, i));
        } else {
            assert(lex_lt_from(b, a, i));
        }
    } else if a[i] == b[i] {
        assert(a.take(i + 1) =~= a.take(i).push(a[i]));
        assert(b.take(i + 1) =~= b.take(i).push(b[i]));
        lemma_lex_from_trichotomy(a, b, i + 1);
    } else {
        assert((a[i] as int) != (b[i] as int));
        if a == b {
            assert(a[i] == b[i]);
        }
    }
}

/// Exactly one of `a < b`, `a == b`, `b < a` holds.
pub proof fn lemma_lex_trichotomy(a: Seq<char>, b: Seq<char>)
    ensures
        lex_lt(a, b) || a == b || lex_lt(b, a),
        !(lex_lt(a, b) && lex_lt(b, a)),
        !lex_lt(a, a),
{
    assert(a.take(0) =~= b.take(0));
    lemma_lex_from_trichotomy(a, b, 0);
    assert(a.take(0) =~= a.take(0));
    lemma_lex_from_trichotomy(a, a, 0);
}

proof fn lemma_lex_from_transitive(a: Seq<char>, b: Seq<char>, c: Seq<char>, i: int)
    requires
        0 <= i,
        i <= a.len(),
        i <= b.len(),
        i <= c.len(),
        lex_lt_from(a, b, i),
        lex_lt_from(b, c, i),
    ensures
        lex_lt_from(a, c, i),
    decreases a.len() - i,
{
    if i == a.len() {
    } else if i == b.len() {
    } else if i == c.len() {
    } else if a[i] == b[i] && b[i] == c[i] {
        lemma_lex_from_transitive(a, b, c, i + 1);
    }
}

/// Lexicographic order is transitive.
pub proof fn lemma_lex_transitive(a: Seq<char>, b: Seq<char>, c: Seq<char>)
    requires
        lex_lt(a, b),
        lex_lt(b, c),
    ensures
        lex_lt(a, c),
{
    lemma_lex_from_transitive(a, b, c, 0);
}

/// Compare two strings lexicographically.
pub fn str_lt(a: &str, b: &str) -> (r: bool)
    ensures
        r == lex_lt(a@, b@),
{
    let na = a.unicode_len();
    let nb = b.unicode_len();
    let mut i: usize = 0;
    while i < na && i < nb
        invariant
            na == a@.len(),
            nb == b@.len(),
            i <= na,
            i <= nb,
            lex_lt(a@, b@) == lex_lt_from(a@, b@, i as int),
        decreases na - i,
    {
        let ca = a.get_char(i);
        let cb = b.get_char(i);
        if ca != cb {
            return (ca as u32) < (cb as u32);
        }
        i = i + 1;
    }
    i < nb && i == na
}

/// Compare two strings for equality.
pub fn str_eq(a: &str, b: &str) -> (r: bool)
    ensures
        r == (a@ == b@),
{
    let na = a.unicode_len();
    let nb = b.unicode_len();
    if na != nb {
        return false;
    }
    let mut i: usize = 0;
    while i < na
        invariant
            na == a@.len(),
            nb == b@.len(),
            na == nb,
            i <= na,
            a@.take(i as int) == b@.take(i as int),
        decreases na - i,
    {
        if a.get_char(i) != b.get_char(i) {
            return false;
        }
        assert(a@.take(i + 1) =~= a@.take(i as int).push(a@[i as int]));
        assert(b@.take(i + 1) =~= b@.take(i as int).push(b@[i as int]));
        i = i + 1;
    }
    assert(a@ =~= a@.take(na as int));
    assert(b@ =~= b@.take(nb as int));
    true
}

// ---------------------------------------------------------------------------
// Stable ordering by key

/// The first position, from `p` on, whose key is strictly greater than `x`
/// (or the length of `order` when there is none).
pub open spec fn first_greater(order: Seq<usize>, keys: Seq<Seq<char>>, x: Seq<char>, p: int) -> int
    decreases order.len() - p,
{
    if p < 0 || p >= order.len() {
        order.len() as int
    } else if lex_lt(x, keys[order[p] as int]) {
        p
    } else {
        first_greater(order, keys, x, p + 1)
    }
}

/// Insertion sort of the indices `0..n` by key: each index is placed just
/// before the first index already placed whose key is strictly greater.
/// This is the order a stable sort by key produces.
pub open spec fn sorted_indices(keys: Seq<Seq<char>>, n: nat) -> Seq<usize>
    decreases n,
{
    if n == 0 {
        Seq::empty()
    } else {
        let o = sorted_indices(keys, (n - 1) as nat);
        o.insert(first_greater(o, keys, keys[n - 1], 0), (n - 1) as usize)
    }
}
// ---------------------------------------------------------------------------

/// `order` lists every index below `n` exactly once.
pub open spec fn is_permutation(order: Seq<usize>, n: nat) -> bool {
    &&& order.len() == n
    &&& forall|p: int| 0 <= p < order.len() ==> #[trigger] order[p] < n
    &&& forall|p: int, q: int| 0 <= p < q < order.len() ==> order[p] != order[q]
}

/// The keys visited in `order` never decrease, and equal keys keep their
/// original relative order.
pub open spec fn is_stably_sorted(keys: Seq<Seq<char>>, order: Seq<usize>) -> bool {
    forall|p: int, q: int|
        0 <= p < q < order.len() ==> {
            &&& !lex_lt(#[trigger] keys[order[q] as int], #[trigger] keys[order[p] as int])
            &&& (keys[order[p] as int] == keys[order[q] as int] ==> order[p] < order[q])
        }
}

proof fn lemma_permutation_covers(order: Seq<usize>, n: nat, x: usize)
    requires
        is_permutation(order, n),
        x < n,
    ensures
        order.contains(x),
    decreases n,
{
    // pigeonhole: the values are distinct and below n, and there are n of them.
    if !order.contains(x) {
        let f = |k: usize| if k < x { k } else { (k - 1) as usize };
        let s2 = order.map_values(f);
        assert forall|p: int| 0 <= p < s2.len() implies #[trigger] s2[p] < n - 1 by {
            assert(order[p] != x);
        }
        assert forall|p: int, q: int| 0 <= p < q < s2.len() implies s2[p] != s2[q] by {
            assert(order[p] != x);
            assert(order[q] != x);
        }
        if n >= 1 {
            lemma_injective_bound(s2, (n - 1) as nat);
        }
    }
}

proof fn lemma_injective_bound(s: Seq<usize>, m: nat)
    requires
        forall|p: int| 0 <= p < s.len() ==> #[trigger] s[p] < m,
        forall|p: int, q: int| 0 <= p < q < s.len() ==> s[p] != s[q],
    ensures
        s.len() <= m,
    decreases m,
{
    if s.len() > m {
        if m == 0 {
            assert(s[0] < 0);
        } else {
            let top = (m - 1) as usize;
            // remove the (at most one) occurrence of top, the rest lies below m - 1
            if s.contains(top) {
                let j = choose|j: int| 0 <= j < s.len() && s[j] == top;
                let t = s.remove(j);
                s.remove_ensures(j);
                assert forall|p: int| 0 <= p < t.len() implies #[trigger] t[p] < m - 1 by {
                    if p < j {
                        assert(s[p] != s[j]);
                    } else {
                        assert(s[p + 1] != s[j]);
                    }
                }
                assert forall|p: int, q: int| 0 <= p < q < t.len() implies t[p] != t[q] by {
                    if q < j {
                    } else if p < j {
                        assert(s[p] != s[q + 1]);
                    } else {
                        assert(s[p + 1] != s[q + 1]);
                    }
                }
                lemma_injective_bound(t, (m - 1) as nat);
            } else {
                assert forall|p: int| 0 <= p < s.len() implies #[trigger] s[p] < m - 1 by {
                    assert(s[p] != top);
                }
                lemma_injective_bound(s, (m - 1) as nat);
            }
        }
    }
}

/// A permutation of the indices of `keys` that visits the keys in
/// lexicographic order, keeping equal keys in their original order: the
/// order in which a stable sort by key arranges them.
pub fn stable_order_by_key(keys: &Vec<String>) -> (order: Vec<usize>)
    ensures
        is_permutation(order@, keys@.len()),
        is_stably_sorted(views(keys@), order@),
        forall|x: usize| x < keys@.len() ==> #[trigger] order@.contains(x),
        order@ == sorted_indices(views(keys@), keys@.len()),
{
    let ghost ks = views(keys@);
    let n = keys.len();
    let mut order: Vec<usize> = Vec::new();
    let mut k: usize = 0;
    while k < n
        invariant
            n == keys@.len(),
            ks == views(keys@),
            k <= n,
            is_permutation(order@, k as nat),
            is_stably_sorted(ks, order@),
            order@ == sorted_indices(ks, k as nat),
        decreases n - k,
    {
        // find the first position whose key is strictly greater than keys[k]
        let mut pos: usize = 0;
        while pos < order.len() && !str_lt(keys[k].as_str(), keys[order[pos]].as_str())
            invariant
                n == keys@.len(),
                ks == views(keys@),
                k < n,
                is_permutation(order@, k as nat),
                pos <= order@.len(),
                forall|p: int| 0 <= p < pos ==> !lex_lt(ks[k as int], #[trigger] ks[order@[p] as int]),
                first_greater(order@, ks, ks[k as int], 0) == first_greater(order@, ks, ks[k as int], pos as int),
            decreases order@.len() - pos,
        {
            pos = pos + 1;
        }
        let ghost old_order = order@;
        proof {
            assert(ks[k as int] == keys@[k as int]@);
            assert(first_greater(old_order, ks, ks[k as int], 0) == pos);
            // every position from pos on holds a key strictly greater than keys[k]
            assert forall|p: int| pos <= p < old_order.len() implies lex_lt(ks[k as int], #[trigger] ks[old_order[p] as int]) by {
                if p > pos {
                    lemma_lex_trichotomy(ks[old_order[p] as int], ks[old_order[pos as int] as int]);
                    if ks[old_order[p] as int] != ks[old_order[pos as int] as int] {
                        lemma_lex_transitive(ks[k as int], ks[old_order[pos as int] as int], ks[old_order[p] as int]);
                    }
                }
            }
        }
        order.insert(pos, k);
        proof {
            old_order.insert_ensures(pos as int, k);
            let s = order@;
            assert(s == old_order.insert(pos as int, k));
            assert forall|p: int| 0 <= p < s.len() implies #[trigger] s[p] < k + 1 by {
                if p < pos {
                } else if p == pos {
                } else {
                    assert(s[p] == old_order[p - 1]);
                }
            }
            assert forall|p: int, q: int| 0 <= p < q < s.len() implies s[p] != s[q] by {
                if q < pos {
                } else if q == pos {
                    assert(s[p] == old_order[p]);
                } else if p < pos {
                    assert(s[q] == old_order[q - 1]);
                } else if p == pos {
                    assert(s[q] == old_order[q - 1]);
                } else {
                    assert(s[p] == old_order[p - 1]);
                    assert(s[q] == old_order[q - 1]);
                }
            }
            assert forall|p: int, q: int| 0 <= p < q < s.len() implies {
                &&& !lex_lt(#[trigger] ks[s[q] as int], #[trigger] ks[s[p] as int])
                &&& (ks[s[p] as int] == ks[s[q] as int] ==> s[p] < s[q])
            } by {
                if q < pos {
                } else if q == pos {
                    assert(s[p] == old_order[p]);
                    lemma_lex_trichotomy(ks[k as int], ks[old_order[p] as int]);
                } else if p < pos {
                    assert(s[q] == old_order[q - 1]);
                } else if p == pos {
                    assert(s[q] == old_order[q - 1]);
                    lemma_lex_trichotomy(ks[k as int], ks[old_order[q - 1] as int]);
                } else {
                    assert(s[p] == old_order[p - 1]);
                    assert(s[q] == old_order[q - 1]);
                }
            }
        }
        k = k + 1;
    }
    proof {
        assert forall|x: usize| x < keys@.len() implies #[trigger] order@.contains(x) by {
            lemma_permutation_covers(order@, n as nat, x);
        }
    }
    order
}

} // verus!
