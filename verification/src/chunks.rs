//! The chunk files of a segmented video: their names ("chunk_00000.webm",
//! "chunk_00001.webm", ...) and the order in which they are packed.

use vstd::prelude::*;
use vstd::relations::{sorted_by, total_ordering};
use vstd::string::*;

use crate::text::{decimal, digit_char, push_decimal};

verus! {

/// Lexicographic order of names, character by character; a name comes
/// before every longer name that starts with it.
pub open spec fn name_le(a: Seq<char>, b: Seq<char>) -> bool
    decreases a.len(),
{
    if a.len() == 0 {
        true
    } else if b.len() == 0 {
        false
    } else if a[0] != b[0] {
        (a[0] as int) < (b[0] as int)
    } else {
        name_le(a.drop_first(), b.drop_first())
    }
}

/// The order of names as a relation.
pub open spec fn name_order() -> spec_fn(Seq<char>, Seq<char>) -> bool {
    |a: Seq<char>, b: Seq<char>| name_le(a, b)
}

proof fn lemma_name_le_reflexive(a: Seq<char>)
    ensures
        name_le(a, a),
    decreases a.len(),
{
    if a.len() > 0 {
        lemma_name_le_reflexive(a.drop_first());
    }
}

proof fn lemma_name_le_total(a: Seq<char>, b: Seq<char>)
    ensures
        name_le(a, b) || name_le(b, a),
    decreases a.len(),
{
    if a.len() > 0 && b.len() > 0 {
        if a[0] == b[0] {
            lemma_name_le_total(a.drop_first(), b.drop_first());
        } else {
            assert((a[0] as int) != (b[0] as int));
        }
    }
}

proof fn lemma_name_le_antisymmetric(a: Seq<char>, b: Seq<char>)
    requires
        name_le(a, b),
        name_le(b, a),
    ensures
        a == b,
    decreases a.len(),
{
    if a.len() == 0 {
        assert(b.len() == 0);
        assert(a =~= b);
    } else {
        assert(b.len() > 0);
        assert(a[0] == b[0]);
        lemma_name_le_antisymmetric(a.drop_first(), b.drop_first());
        assert(a =~= seq![a[0]] + a.drop_first());
        assert(b =~= seq![b[0]] + b.drop_first());
    }
}

proof fn lemma_name_le_transitive(a: Seq<char>, b: Seq<char>, c: Seq<char>)
    requires
        name_le(a, b),
        name_le(b, c),
    ensures
        name_le(a, c),
    decreases a.len(),
{
    if a.len() > 0 && b.len() > 0 && c.len() > 0 && a[0] == b[0] && b[0] == c[0] {
        lemma_name_le_transitive(a.drop_first(), b.drop_first(), c.drop_first());
    }
}

/// Names are totally ordered.
pub proof fn lemma_name_order_total()
    ensures
        total_ordering(name_order()),
{
    assert forall|a: Seq<char>| #[trigger] name_order()(a, a) by {
        lemma_name_le_reflexive(a);
    }
    assert forall|a: Seq<char>, b: Seq<char>|
        #[trigger] name_order()(a, b) && #[trigger] name_order()(b, a) implies a == b by {
        lemma_name_le_antisymmetric(a, b);
    }
    assert forall|a: Seq<char>, b: Seq<char>, c: Seq<char>|
        #[trigger] name_order()(a, b) && #[trigger] name_order()(b, c) implies name_order()(a, c) by {
        lemma_name_le_transitive(a, b, c);
    }
    assert forall|a: Seq<char>, b: Seq<char>|
        #[trigger] name_order()(a, b) || #[trigger] name_order()(b, a) by {
        lemma_name_le_total(a, b);
    }
}

proof fn lemma_name_le_skip(a: Seq<char>, b: Seq<char>, i: int)
    requires
        0 <= i <= a.len(),
        i <= b.len(),
        a.take(i) == b.take(i),
    ensures
        name_le(a, b) == name_le(a.skip(i), b.skip(i)),
    decreases i,
{
    if i > 0 {
        assert(a[0] == a.take(i)[0]);
        assert(b[0] == b.take(i)[0]);
        assert(a.drop_first().take(i - 1) =~= a.take(i).drop_first());
        assert(b.drop_first().take(i - 1) =~= b.take(i).drop_first());
        lemma_name_le_skip(a.drop_first(), b.drop_first(), i - 1);
        assert(a.drop_first().skip(i - 1) =~= a.skip(i));
        assert(b.drop_first().skip(i - 1) =~= b.skip(i));
    } else {
        assert(a.skip(0) =~= a);
        assert(b.skip(0) =~= b);
    }
}

/// Whether name `a` comes at or before name `b`.
pub fn name_before_or_equal(a: &str, b: &str) -> (r: bool)
    ensures
        r == name_le(a@, b@),
{
    let la = a.unicode_len();
    let lb = b.unicode_len();
    let mut i: usize = 0;
    while i < la && i < lb && a.get_char(i) == b.get_char(i)
        invariant
            la == a@.len(),
            lb == b@.len(),
            i <= la,
            i <= lb,
            a@.take(i as int) == b@.take(i as int),
        decreases la - i,
    {
        proof {
            assert(a@.take(i + 1) =~= a@.take(i as int).push(a@[i as int]));
            assert(b@.take(i + 1) =~= b@.take(i as int).push(b@[i as int]));
        }
        i = i + 1;
    }
    proof {
        lemma_name_le_skip(a@, b@, i as int);
    }
    if i == la {
        true
    } else if i == lb {
        false
    } else {
        let ca = a.get_char(i);
        let cb = b.get_char(i);
        proof {
            assert(a@.skip(i as int)[0] == ca);
            assert(b@.skip(i as int)[0] == cb);
        }
        (ca as u32) < (cb as u32)
    }
}

fn starts_with(s: &str, p: &str) -> (b: bool)
    ensures
        b == (p@.len() <= s@.len() && s@.subrange(0, p@.len() as int) == p@),
{
    let ls = s.unicode_len();
    let lp = p.unicode_len();
    if lp > ls {
        return false;
    }
    let mut i: usize = 0;
    while i < lp
        invariant
            ls == s@.len(),
            lp == p@.len(),
            lp <= ls,
            i <= lp,
            s@.subrange(0, i as int) == p@.subrange(0, i as int),
        decreases lp - i,
    {
        if s.get_char(i) != p.get_char(i) {
            proof {
                if s@.subrange(0, lp as int) == p@ {
                    assert(s@.subrange(0, lp as int)[i as int] == s@[i as int]);
                }
            }
            return false;
        }
        proof {
            assert(s@.subrange(0, i + 1) =~= s@.subrange(0, i as int).push(s@[i as int]));
            assert(p@.subrange(0, i + 1) =~= p@.subrange(0, i as int).push(p@[i as int]));
        }
        i = i + 1;
    }
    proof {
        assert(p@.subrange(0, lp as int) =~= p@);
    }
    true
}

fn ends_with(s: &str, p: &str) -> (b: bool)
    ensures
        b == (p@.len() <= s@.len() && s@.subrange(s@.len() - p@.len(), s@.len() as int) == p@),
{
    let ls = s.unicode_len();
    let lp = p.unicode_len();
    if lp > ls {
        return false;
    }
    let off = ls - lp;
    let mut i: usize = 0;
    while i < lp
        invariant
            ls == s@.len(),
            lp == p@.len(),
            off == ls - lp,
            i <= lp,
            s@.subrange(off as int, off + i) == p@.subrange(0, i as int),
        decreases lp - i,
    {
        if s.get_char(off + i) != p.get_char(i) {
            proof {
                if s@.subrange(off as int, ls as int) == p@ {
                    assert(s@.subrange(off as int, ls as int)[i as int] == s@[off + i]);
                }
            }
            return false;
        }
        proof {
            assert(s@.subrange(off as int, off + i + 1) =~= s@.subrange(off as int, off + i).push(
                s@[off + i],
            ));
            assert(p@.subrange(0, i + 1) =~= p@.subrange(0, i as int).push(p@[i as int]));
        }
        i = i + 1;
    }
    proof {
        assert(p@.subrange(0, lp as int) =~= p@);
    }
    true
}

/// A file name of a chunk: "chunk_" followed by anything, with the
/// extension "webm".
pub open spec fn is_chunk_file_name(name: Seq<char>) -> bool {
    &&& 6 <= name.len()
    &&& name.subrange(0, 6) == "chunk_"@
    &&& 5 <= name.len()
    &&& name.subrange(name.len() - 5, name.len() as int) == ".webm"@
}

/// Whether `name` is the file name of a chunk.
pub fn chunk_file_name_matches(name: &str) -> (b: bool)
    ensures
        b == is_chunk_file_name(name@),
{
    proof {
        reveal_strlit("chunk_");
        reveal_strlit(".webm");
    }
    starts_with(name, "chunk_") && ends_with(name, ".webm")
}

/// The texts of the names.
pub open spec fn names_view(names: Seq<String>) -> Seq<Seq<char>> {
    names.map_values(|n: String| n@)
}

/// The chunk file names among `names`, in the order of the list.
pub open spec fn chunk_names(names: Seq<String>) -> Seq<Seq<char>> {
    names_view(names).filter(|n: Seq<char>| is_chunk_file_name(n))
}

/// Why no chunk list could be made.
#[derive(Debug, Clone, Copy, PartialEq, Eq)]
pub enum ChunkListError {
    /// No file of the directory is a chunk.
    NoChunks,
}

/// The text that explains why no chunk list could be made.
pub open spec fn chunk_list_error_text(e: ChunkListError) -> Seq<char> {
    "Nenhum chunk gerado. O vídeo pode ser muito curto."@
}

impl ChunkListError {
    /// The text that explains the error to the user.
    pub fn message(&self) -> (s: String)
        ensures
            s@ == chunk_list_error_text(*self),
    {
        String::from_str("Nenhum chunk gerado. O vídeo pode ser muito curto.")
    }
}

/// Keeps the chunk files among the file names of a directory and sorts
/// them by name; with zero-padded numbers that is their order in time.
/// Fails when there is none.
pub fn select_chunk_files(names: Vec<String>) -> (r: Result<Vec<String>, ChunkListError>)
    ensures
        r is Err <==> chunk_names(names@).len() == 0,
        r matches Ok(v) ==> names_view(v@) == chunk_names(names@).sort_by(name_order()),
{
    let ghost all = names_view(names@);
    let ghost p = |n: Seq<char>| is_chunk_file_name(n);
    let mut out: Vec<String> = Vec::new();
    let mut i: usize = 0;
    proof {
        lemma_name_order_total();
        assert(all.take(0).filter(p) =~= Seq::<Seq<char>>::empty()) by {
            reveal_with_fuel(Seq::<_>::filter, 1);
        }
        assert(names_view(out@) =~= Seq::<Seq<char>>::empty());
    }
    while i < names.len()
        invariant
            i <= names@.len(),
            all == names_view(names@),
            p == (|n: Seq<char>| is_chunk_file_name(n)),
            total_ordering(name_order()),
            sorted_by(names_view(out@), name_order()),
            names_view(out@).to_multiset() == all.take(i as int).filter(p).to_multiset(),
            names_view(out@).len() == all.take(i as int).filter(p).len(),
        decreases names@.len() - i,
    {
        let name = &names[i];
        let ghost prefix_next = all.take(i + 1);
        proof {
            reveal_with_fuel(Seq::<_>::filter, 1);
            assert(prefix_next.drop_last() =~= all.take(i as int));
            assert(prefix_next.last() == name@);
        }
        let ghost old_out = names_view(out@);
        if chunk_file_name_matches(name.as_str()) {
            let mut k: usize = 0;
            while k < out.len() && name_before_or_equal(out[k].as_str(), name.as_str())
                invariant
                    k <= out@.len(),
                    forall|j: int| 0 <= j < k ==> name_le(#[trigger] out@[j]@, name@),
                decreases out@.len() - k,
            {
                k = k + 1;
            }
            let ghost before = names_view(out@);
            out.insert(k, name.clone());
            proof {
                let after = names_view(out@);
                assert(after =~= before.insert(k as int, name@));
                vstd::seq_lib::to_multiset_insert(before, k as int, name@);
                assert forall|a: int, b: int| 0 <= a < b < after.len() implies #[trigger] name_order()(
                    after[a],
                    after[b],
                ) by {
                    if k < out@.len() - 1 {
                        assert(!name_le(before[k as int], name@));
                        lemma_name_le_total(before[k as int], name@);
                    }
                    if a < k && b == k {
                        assert(name_le(before[a], name@));
                    } else if a == k && b > k {
                        assert(name_le(name@, before[k as int]));
                        if b - 1 > k {
                            assert(name_order()(before[k as int], before[b - 1]));
                            lemma_name_le_transitive(name@, before[k as int], before[b - 1]);
                        }
                    } else if a < k && b > k {
                        assert(name_order()(before[a], before[b - 1]));
                    } else if a > k {
                        assert(name_order()(before[a - 1], before[b - 1]));
                    } else {
                        assert(name_order()(before[a], before[b]));
                    }
                }
            }
        }
        proof {
            if is_chunk_file_name(name@) {
                assert(prefix_next.filter(p) == all.take(i as int).filter(p).push(name@));
                vstd::seq_lib::to_multiset_build(all.take(i as int).filter(p), name@);
            } else {
                assert(prefix_next.filter(p) == all.take(i as int).filter(p));
                assert(names_view(out@) == old_out);
            }
        }
        i = i + 1;
    }
    proof {
        assert(all.take(names@.len() as int) =~= all);
    }
    if out.len() == 0 {
        return Err(ChunkListError::NoChunks);
    }
    proof {
        let target = all.filter(p);
        target.lemma_sort_by_ensures(name_order());
        vstd::seq_lib::lemma_sorted_unique(names_view(out@), target.sort_by(name_order()), name_order());
    }
    Ok(out)
}

/// The numeral of `n` padded with zeros on the left to at least `width` digits.
pub open spec fn zero_padded(n: nat, width: nat) -> Seq<char> {
    let d = decimal(n);
    if d.len() >= width {
        d
    } else {
        Seq::new((width - d.len()) as nat, |i: int| '0') + d
    }
}

/// The file name of the chunk with this number: "chunk_", the number on
/// at least five digits, ".webm".
pub open spec fn chunk_file_name_text(index: nat) -> Seq<char> {
    "chunk_"@ + zero_padded(index, 5) + ".webm"@
}

proof fn lemma_decimal_len(n: nat)
    ensures
        decimal(n).len() >= 1,
        n < 10000 ==> decimal(n).len() <= 4,
        n < 1000 ==> decimal(n).len() <= 3,
        n < 100 ==> decimal(n).len() <= 2,
        n < 10 ==> decimal(n).len() == 1,
    decreases n,
{
    if n >= 10 {
        lemma_decimal_len(n / 10);
    }
}

/// The file name of the chunk with this number, as the segmenter writes it.
pub fn chunk_file_name(index: usize) -> (s: String)
    ensures
        s@ == chunk_file_name_text(index as nat),
{
    let mut s = String::from_str("chunk_");
    proof {
        lemma_decimal_len(index as nat);
    }
    let ghost d = decimal(index as nat);
    let pad: usize = if index < 10 {
        4
    } else if index < 100 {
        3
    } else if index < 1000 {
        2
    } else if index < 10000 {
        1
    } else {
        0
    };
    let ghost start = s@;
    let mut i: usize = 0;
    while i < pad
        invariant
            i <= pad,
            s@ == start + Seq::new(i as nat, |j: int| '0'),
        decreases pad - i,
    {
        s.append("0");
        proof {
            reveal_strlit("0");
            assert(start + Seq::new((i + 1) as nat, |j: int| '0') =~= start + Seq::new(
                i as nat,
                |j: int| '0',
            ) + "0"@);
        }
        i = i + 1;
    }
    push_decimal(&mut s, index as u128);
    s.append(".webm");
    proof {
        if index >= 10000 {
            assert(Seq::new(0, |j: int| '0') + d =~= d);
            if d.len() < 5 {
                assert(decimal(index as nat).len() >= 5) by {
                    lemma_decimal_ge(index as nat);
                }
            }
        } else {
            assert(d.len() < 5);
            assert(pad == 5 - d.len()) by {
                lemma_decimal_exact_len(index as nat);
            }
        }
        assert(s@ =~= chunk_file_name_text(index as nat));
    }
    s
}

proof fn lemma_decimal_ge(n: nat)
    requires
        n >= 10000,
    ensures
        decimal(n).len() >= 5,
    decreases n,
{
    if n / 10 >= 10000 {
        lemma_decimal_ge(n / 10);
    } else {
        lemma_decimal_exact_len(n / 10);
    }
}

proof fn lemma_decimal_exact_len(n: nat)
    ensures
        n < 10 ==> decimal(n).len() == 1,
        10 <= n < 100 ==> decimal(n).len() == 2,
        100 <= n < 1000 ==> decimal(n).len() == 3,
        1000 <= n < 10000 ==> decimal(n).len() == 4,
    decreases n,
{
    if n >= 10 {
        lemma_decimal_exact_len(n / 10);
    }
}

} // verus!

verus! {

/// The five decimal digits of `n`, zeros first, for `n` below 100000.
pub open spec fn five_digits(n: nat) -> Seq<char> {
    seq![
        digit_char((n / 10000) % 10),
        digit_char((n / 1000) % 10),
        digit_char((n / 100) % 10),
        digit_char((n / 10) % 10),
        digit_char(n % 10),
    ]
}

proof fn lemma_zero_padded_five(n: nat)
    requires
        n < 100000,
    ensures
        zero_padded(n, 5) == five_digits(n),
{
    lemma_decimal_exact_len(n);
    reveal_with_fuel(decimal, 5);
    if n < 10 {
        assert(zero_padded(n, 5) =~= five_digits(n));
    } else if n < 100 {
        assert(decimal(n) =~= seq![digit_char(n / 10), digit_char(n % 10)]);
        assert(zero_padded(n, 5) =~= five_digits(n));
    } else if n < 1000 {
        assert(decimal(n / 10) =~= seq![digit_char(n / 100), digit_char((n / 10) % 10)]);
        assert(zero_padded(n, 5) =~= five_digits(n));
    } else if n < 10000 {
        assert(decimal(n / 100) =~= seq![digit_char(n / 1000), digit_char((n / 100) % 10)]);
        assert(zero_padded(n, 5) =~= five_digits(n));
    } else {
        assert(decimal(n / 1000) =~= seq![digit_char(n / 10000), digit_char((n / 1000) % 10)]);
        assert(zero_padded(n, 5) =~= five_digits(n));
    }
}

proof fn lemma_first_difference(a: Seq<char>, b: Seq<char>, x: Seq<char>, y: Seq<char>, k: int)
    requires
        0 <= k < a.len(),
        k < b.len(),
        a.take(k) == b.take(k),
        (a[k] as int) < (b[k] as int),
    ensures
        name_le(a + x, b + y),
        a + x != b + y,
{
    let s = a + x;
    let t = b + y;
    assert(s.take(k) =~= a.take(k));
    assert(t.take(k) =~= b.take(k));
    lemma_name_le_skip(s, t, k);
    assert(s.skip(k)[0] == a[k]);
    assert(t.skip(k)[0] == b[k]);
    assert(s[k] != t[k]);
}

proof fn lemma_digit_at_level(i: int, j: int, q: int)
    requires
        0 <= i < j,
        q > 0,
        i / (q * 10) == j / (q * 10),
        i / q != j / q,
    ensures
        (i / q) % 10 < (j / q) % 10,
{
    vstd::arithmetic::div_mod::lemma_div_is_ordered(i, j, q);
    vstd::arithmetic::div_mod::lemma_div_denominator(i, q, 10);
    vstd::arithmetic::div_mod::lemma_div_denominator(j, q, 10);
    let x = i / q;
    let y = j / q;
    assert(x / 10 == y / 10);
    assert(x < y);
    assert(x % 10 < y % 10) by (nonlinear_arith)
        requires
            x / 10 == y / 10,
            x < y,
            x >= 0,
    ;
}

proof fn lemma_five_digits_ordered(i: nat, j: nat)
    requires
        i < j < 100000,
    ensures
        exists|k: int|
            0 <= k < 5 && five_digits(i).take(k) == five_digits(j).take(k) && (five_digits(i)[k] as int)
                < (five_digits(j)[k] as int),
{
    let a = five_digits(i);
    let b = five_digits(j);
    assert(i / 100000 == 0 && j / 100000 == 0);
    assert(10000int * 10 == 100000 && 1000int * 10 == 10000 && 100int * 10 == 1000 && 10int * 10 == 100
        && 1int * 10 == 10);
    if i / 10000 != j / 10000 {
        lemma_digit_at_level(i as int, j as int, 10000);
        assert(a.take(0) =~= b.take(0));
        assert((a[0] as int) < (b[0] as int));
    } else if i / 1000 != j / 1000 {
        lemma_digit_at_level(i as int, j as int, 1000);
        assert(a.take(1) =~= b.take(1));
        assert((a[1] as int) < (b[1] as int));
    } else if i / 100 != j / 100 {
        lemma_digit_at_level(i as int, j as int, 100);
        assert(a.take(2) =~= b.take(2));
        assert((a[2] as int) < (b[2] as int));
    } else if i / 10 != j / 10 {
        lemma_digit_at_level(i as int, j as int, 10);
        assert(a.take(3) =~= b.take(3));
        assert((a[3] as int) < (b[3] as int));
    } else {
        lemma_digit_at_level(i as int, j as int, 1);
        assert(a.take(4) =~= b.take(4));
        assert((a[4] as int) < (b[4] as int));
    }
}

/// Every name that `chunk_file_name` makes is the name of a chunk file, and
/// for chunk numbers below 100000 the order of the names is the order of
/// the numbers: sorting chunk files by name puts them in time order.
pub proof fn chunk_names_sort_in_time_order(i: nat, j: nat)
    ensures
        is_chunk_file_name(chunk_file_name_text(i)),
        i < j < 100000 ==> name_le(chunk_file_name_text(i), chunk_file_name_text(j))
            && chunk_file_name_text(i) != chunk_file_name_text(j),
{
    reveal_strlit("chunk_");
    reveal_strlit(".webm");
    let t = chunk_file_name_text(i);
    let p = zero_padded(i, 5);
    assert(t.subrange(0, 6) =~= "chunk_"@);
    assert(t.subrange(t.len() - 5, t.len() as int) =~= ".webm"@);
    if i < j < 100000 {
        lemma_zero_padded_five(i);
        lemma_zero_padded_five(j);
        lemma_five_digits_ordered(i, j);
        let a = five_digits(i);
        let b = five_digits(j);
        let k = choose|k: int|
            0 <= k < 5 && a.take(k) == b.take(k) && (a[k] as int) < (b[k] as int);
        let pre = "chunk_"@;
        assert forall|m: int| 0 <= m < 6 + k implies #[trigger] (pre + a)[m] == (pre + b)[m] by {
            if m >= 6 {
                assert(a[m - 6] == a.take(k)[m - 6]);
                assert(b[m - 6] == b.take(k)[m - 6]);
            }
        }
        assert((pre + a).take(6 + k) =~= (pre + b).take(6 + k));
        assert((pre + a)[6 + k] == a[k]);
        assert((pre + b)[6 + k] == b[k]);
        lemma_first_difference(pre + a, pre + b, ".webm"@, ".webm"@, 6 + k);
    }
}

} // verus!
