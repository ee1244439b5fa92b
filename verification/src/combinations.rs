//! Combinations with replacement: every way to choose `k` symbols from an
//! alphabet where the order of choosing does not count and a symbol may be
//! chosen again, in one fixed order.

use vstd::prelude::*;

verus! {

/// Whether the entries of `s` never decrease.
pub open spec fn ascending(s: Seq<int>) -> bool {
    forall|i: int, j: int| 0 <= i <= j < s.len() ==> s[i] <= s[j]
}

/// Whether `s` chooses `k` positions of an alphabet of `n` symbols, none
/// below `lo`, in non-decreasing order. Such a sequence stands for one
/// multiset of positions.
pub open spec fn is_choice(s: Seq<int>, n: nat, k: nat, lo: nat) -> bool {
    &&& s.len() == k
    &&& forall|i: int| 0 <= i < s.len() ==> lo <= #[trigger] s[i] < n
    &&& ascending(s)
}

/// Whether `a` comes before `b` in dictionary order: they agree up to some
/// place, at which `a` has the smaller entry.
pub open spec fn comes_before(a: Seq<int>, b: Seq<int>) -> bool {
    exists|p: int|
        0 <= p < a.len() && p < b.len() && a.take(p) == b.take(p) && #[trigger] a[p] < b[p]
}

/// The choices of `k` positions from `lo` up to `n`, in dictionary order:
/// first those that begin with `lo`, then those that do not.
pub open spec fn choices(n: nat, k: nat, lo: nat) -> Seq<Seq<int>>
    decreases k, n - lo,
{
    if k == 0 {
        seq![Seq::<int>::empty()]
    } else if lo >= n {
        Seq::<Seq<int>>::empty()
    } else {
        choices(n, (k - 1) as nat, lo).map_values(|rest: Seq<int>| seq![lo as int] + rest)
            + choices(n, k, lo + 1)
    }
}

/// The symbols that a choice of positions picks from an alphabet.
pub open spec fn pick(alphabet: Seq<char>, choice: Seq<int>) -> Seq<char> {
    choice.map_values(|position: int| alphabet[position])
}

/// The combinations with replacement of `k` symbols of `alphabet`, in the
/// dictionary order of their positions in the alphabet.
pub open spec fn combinations(alphabet: Seq<char>, k: nat) -> Seq<Seq<char>> {
    choices(alphabet.len(), k, 0).map_values(|choice: Seq<int>| pick(alphabet, choice))
}

/// The binomial coefficient "`n` choose `k`", by Pascal's rule.
pub open spec fn binomial(n: nat, k: nat) -> nat
    decreases n,
{
    if k == 0 {
        1
    } else if n == 0 {
        0
    } else {
        binomial((n - 1) as nat, (k - 1) as nat) + binomial((n - 1) as nat, k)
    }
}

/// The number of multisets of size `k` over `a` symbols: `a + k - 1` choose
/// `k`, and 1 where there is neither a symbol nor a place to fill.
pub open spec fn multiset_count(a: nat, k: nat) -> nat {
    if a + k == 0 {
        1
    } else {
        binomial((a + k - 1) as nat, k)
    }
}

/// The product of the numbers from 1 to `n`.
pub open spec fn factorial(n: nat) -> nat
    decreases n,
{
    if n == 0 {
        1
    } else {
        n * factorial((n - 1) as nat)
    }
}

proof fn factorial_is_positive(n: nat)
    ensures
        factorial(n) > 0,
    decreases n,
{
    if n > 0 {
        factorial_is_positive((n - 1) as nat);
        let f = factorial((n - 1) as nat);
        assert(n * f > 0) by (nonlinear_arith)
            requires
                n > 0,
                f > 0,
        ;
    }
}

/// Pascal's rule gives the usual binomial coefficient: `n! / (k! (n-k)!)`.
pub proof fn binomial_by_factorials(n: nat, k: nat)
    requires
        k <= n,
    ensures
        binomial(n, k) * factorial(k) * factorial((n - k) as nat) == factorial(n),
    decreases n,
{
    if k == 0 {
        assert(1 * 1 * factorial(n) == factorial(n));
    } else if k == n {
        binomial_by_factorials((n - 1) as nat, (k - 1) as nat);
        binomial_above((n - 1) as nat, k);
        factorial_is_positive((n - 1) as nat);
        let c = binomial((n - 1) as nat, (k - 1) as nat);
        let f = factorial((n - 1) as nat);
        assert(c == 1) by (nonlinear_arith)
            requires
                c * f * 1 == f,
                f > 0,
        ;
        assert(1 * factorial(n) * 1 == factorial(n));
    } else {
        binomial_by_factorials((n - 1) as nat, (k - 1) as nat);
        binomial_by_factorials((n - 1) as nat, k);
        let a = binomial((n - 1) as nat, (k - 1) as nat);
        let b = binomial((n - 1) as nat, k);
        let fk = factorial((k - 1) as nat);
        let fd = factorial((n - k - 1) as nat);
        let fn1 = factorial((n - 1) as nat);
        assert(factorial(k) == k * fk);
        assert(factorial((n - k) as nat) == (n - k) * fd);
        assert(factorial(n) == n * fn1);
        assert((a + b) * (k * fk) * ((n - k) * fd) == n * fn1) by (nonlinear_arith)
            requires
                a * fk * ((n - k) * fd) == fn1,
                b * (k * fk) * fd == fn1,
                0 < k < n,
        ;
    }
}

proof fn binomial_above(n: nat, k: nat)
    requires
        n < k,
    ensures
        binomial(n, k) == 0,
    decreases n,
{
    if n > 0 {
        binomial_above((n - 1) as nat, (k - 1) as nat);
        binomial_above((n - 1) as nat, k);
    }
}

/// There are as many choices as multisets.
pub proof fn choices_count(n: nat, k: nat, lo: nat)
    requires
        lo <= n,
    ensures
        choices(n, k, lo).len() == multiset_count((n - lo) as nat, k),
    decreases k, n - lo,
{
    if k == 0 {
    } else if lo >= n {
        binomial_above((k - 1) as nat, k);
    } else {
        choices_count(n, (k - 1) as nat, lo);
        choices_count(n, k, lo + 1);
        let a = (n - lo) as nat;
        if a == 1 {
            binomial_above((k - 1) as nat, k);
        }
    }
}

/// Every entry of `choices` is a choice.
pub proof fn choices_are_choices(n: nat, k: nat, lo: nat, i: int)
    requires
        0 <= i < choices(n, k, lo).len(),
    ensures
        is_choice(choices(n, k, lo)[i], n, k, lo),
    decreases k, n - lo,
{
    if k == 0 {
    } else if lo >= n {
    } else {
        let heads = choices(n, (k - 1) as nat, lo);
        if i < heads.len() {
            choices_are_choices(n, (k - 1) as nat, lo, i);
            let rest = heads[i];
            let whole = seq![lo as int] + rest;
            assert(choices(n, k, lo)[i] == whole);
            assert forall|a: int, b: int| 0 <= a <= b < whole.len() implies whole[a] <= whole[b] by {
                if a > 0 {
                    assert(whole[a] == rest[a - 1]);
                    assert(whole[b] == rest[b - 1]);
                } else if b > 0 {
                    assert(whole[b] == rest[b - 1]);
                }
            }
            assert forall|a: int| 0 <= a < whole.len() implies lo <= #[trigger] whole[a] < n by {
                if a > 0 {
                    assert(whole[a] == rest[a - 1]);
                }
            }
        } else {
            choices_are_choices(n, k, lo + 1, i - heads.len());
            assert(choices(n, k, lo)[i] == choices(n, k, lo + 1)[i - heads.len()]);
        }
    }
}

/// The choices come in strictly rising dictionary order, so none occurs twice.
pub proof fn choices_rise(n: nat, k: nat, lo: nat, i: int, j: int)
    requires
        0 <= i < j < choices(n, k, lo).len(),
    ensures
        comes_before(choices(n, k, lo)[i], choices(n, k, lo)[j]),
        choices(n, k, lo)[i] != choices(n, k, lo)[j],
    decreases k, n - lo,
{
    let all = choices(n, k, lo);
    if k == 0 {
    } else if lo >= n {
    } else {
        let heads = choices(n, (k - 1) as nat, lo);
        let tails = choices(n, k, lo + 1);
        if j < heads.len() {
            choices_rise(n, (k - 1) as nat, lo, i, j);
            let p = choose|p: int|
                0 <= p < heads[i].len() && p < heads[j].len() && heads[i].take(p) == heads[j].take(p)
                    && #[trigger] heads[i][p] < heads[j][p];
            assert(all[i] == seq![lo as int] + heads[i]);
            assert(all[j] == seq![lo as int] + heads[j]);
            assert(all[i].take(p + 1) =~= seq![lo as int] + heads[i].take(p));
            assert(all[j].take(p + 1) =~= seq![lo as int] + heads[j].take(p));
            assert(all[i][p + 1] < all[j][p + 1]);
        } else if i >= heads.len() {
            choices_rise(n, k, lo + 1, i - heads.len(), j - heads.len());
            assert(all[i] == tails[i - heads.len()]);
            assert(all[j] == tails[j - heads.len()]);
        } else {
            choices_are_choices(n, k, lo + 1, j - heads.len());
            assert(all[i] == seq![lo as int] + heads[i]);
            assert(all[j] == tails[j - heads.len()]);
            assert(all[i].take(0) =~= all[j].take(0));
            assert(all[i][0] < all[j][0]);
        }
        let p = choose|p: int|
            0 <= p < all[i].len() && p < all[j].len() && all[i].take(p) == all[j].take(p)
                && #[trigger] all[i][p] < all[j][p];
        assert(all[i][p] != all[j][p]);
    }
}

/// Every choice occurs among `choices`.
pub proof fn choices_cover(n: nat, k: nat, lo: nat, choice: Seq<int>) -> (i: int)
    requires
        is_choice(choice, n, k, lo),
    ensures
        0 <= i < choices(n, k, lo).len(),
        choices(n, k, lo)[i] == choice,
    decreases k, n - lo,
{
    if k == 0 {
        assert(choice =~= Seq::<int>::empty());
        0
    } else {
        assert(lo <= choice[0] < n);
        let heads = choices(n, (k - 1) as nat, lo);
        if choice[0] == lo {
            let rest = choice.skip(1);
            assert forall|a: int, b: int| 0 <= a <= b < rest.len() implies rest[a] <= rest[b] by {
                assert(rest[a] == choice[a + 1]);
                assert(rest[b] == choice[b + 1]);
            }
            assert forall|a: int| 0 <= a < rest.len() implies lo <= #[trigger] rest[a] < n by {
                assert(rest[a] == choice[a + 1]);
            }
            let i = choices_cover(n, (k - 1) as nat, lo, rest);
            assert(seq![lo as int] + rest =~= choice);
            i
        } else {
            assert forall|a: int| 0 <= a < choice.len() implies lo + 1 <= #[trigger] choice[a] < n by {
                assert(choice[0] <= choice[a]);
            }
            let i = choices_cover(n, k, lo + 1, choice);
            heads.len() + i
        }
    }
}

/// The number of combinations of `k` symbols of an alphabet is the number of
/// multisets of size `k` over its symbols.
pub proof fn combinations_count(alphabet: Seq<char>, k: nat)
    ensures
        combinations(alphabet, k).len() == multiset_count(alphabet.len(), k),
{
    choices_count(alphabet.len(), k, 0);
}

/// Every combination of `k` symbols has `k` symbols, each of them picked
/// from the alphabet by a choice of positions.
pub proof fn combinations_have_length(alphabet: Seq<char>, k: nat, i: int)
    requires
        0 <= i < combinations(alphabet, k).len(),
    ensures
        combinations(alphabet, k)[i].len() == k,
        combinations(alphabet, k)[i] == pick(alphabet, choices(alphabet.len(), k, 0)[i]),
        is_choice(choices(alphabet.len(), k, 0)[i], alphabet.len(), k, 0),
{
    choices_are_choices(alphabet.len(), k, 0, i);
}

/// Over an alphabet that names no symbol twice, no combination occurs twice.
pub proof fn combinations_are_distinct(alphabet: Seq<char>, k: nat, i: int, j: int)
    requires
        alphabet.no_duplicates(),
        0 <= i < j < combinations(alphabet, k).len(),
    ensures
        combinations(alphabet, k)[i] != combinations(alphabet, k)[j],
{
    let n = alphabet.len();
    let first = choices(n, k, 0)[i];
    let second = choices(n, k, 0)[j];
    choices_are_choices(n, k, 0, i);
    choices_are_choices(n, k, 0, j);
    choices_rise(n, k, 0, i, j);
    if pick(alphabet, first) == pick(alphabet, second) {
        assert forall|p: int| 0 <= p < k implies first[p] == second[p] by {
            assert(pick(alphabet, first)[p] == alphabet[first[p]]);
            assert(pick(alphabet, second)[p] == alphabet[second[p]]);
        }
        assert(first =~= second);
    }
}

/// Every multiset of `k` symbols of the alphabet, given by a non-decreasing
/// choice of positions, is one of the combinations, and its choice of
/// positions stands at one place only.
pub proof fn combinations_cover(alphabet: Seq<char>, k: nat, choice: Seq<int>) -> (i: int)
    requires
        is_choice(choice, alphabet.len(), k, 0),
    ensures
        0 <= i < combinations(alphabet, k).len(),
        combinations(alphabet, k)[i] == pick(alphabet, choice),
        forall|j: int|
            0 <= j < choices(alphabet.len(), k, 0).len() && j != i ==> choices(
                alphabet.len(),
                k,
                0,
            )[j] != choice,
{
    let n = alphabet.len();
    let i = choices_cover(n, k, 0, choice);
    assert forall|j: int| 0 <= j < choices(n, k, 0).len() && j != i implies choices(n, k, 0)[j]
        != choice by {
        if j < i {
            choices_rise(n, k, 0, j, i);
        } else {
            choices_rise(n, k, 0, i, j);
        }
    }
    i
}

/// The only candidate without symbols is the empty text, and every alphabet
/// has it: the enumeration of length 0 gives it, and nothing else.
pub proof fn length_zero_is_the_empty_text(alphabet: Seq<char>)
    ensures
        combinations(alphabet, 0) == seq![Seq::<char>::empty()],
{
    assert(combinations(alphabet, 0) =~= seq![pick(alphabet, Seq::<int>::empty())]);
    assert(pick(alphabet, Seq::<int>::empty()) =~= Seq::<char>::empty());
    assert(combinations(alphabet, 0) =~= seq![Seq::<char>::empty()]);
}

/// An enumeration in progress: the `CombinationsWithReplacement` of
/// `itertools` over the symbols of an alphabet. Nothing of it is read here;
/// `pending` says what it has still to give.
#[verifier::external_body]
pub struct Combinations {
    inner: itertools::structs::CombinationsWithReplacement<std::vec::IntoIter<char>>,
}

/// The combinations that an enumeration has not given yet, in the order in
/// which it will give them.
pub uninterp spec fn pending(enumeration: Combinations) -> Seq<Seq<char>>;

/// The longest candidate that an enumeration can be started for. An
/// enumeration holds one position for each symbol of a candidate, and a
/// candidate is at most four bytes a symbol: up to this length the sizes of
/// those buffers stay within what an allocation may ask for.
pub const MAX_LENGTH: usize = usize::MAX / 16;

/// Calls `Itertools::combinations_with_replacement` on the symbols of
/// `alphabet`. The enumeration that it starts gives the combinations of `k`
/// symbols in the dictionary order of their positions, the last position
/// moving fastest.
#[verifier::external_body]
pub(crate) fn start(alphabet: &Vec<char>, k: usize) -> (enumeration: Combinations)
    requires
        k <= MAX_LENGTH,
    ensures
        pending(enumeration) == combinations(alphabet@, k as nat),
{
    let symbols = alphabet.clone().into_iter();
    Combinations { inner: itertools::Itertools::combinations_with_replacement(symbols, k) }
}

/// Calls `next` on the `CombinationsWithReplacement` of `itertools`, which
/// gives the first pending combination and keeps the others, or gives `None`
/// once none is pending, however often it is asked.
#[verifier::external_body]
pub(crate) fn advance(enumeration: &mut Combinations) -> (next: Option<Vec<char>>)
    ensures
        match next {
            Some(symbols) => {
                &&& pending(*old(enumeration)).len() > 0
                &&& symbols@ == pending(*old(enumeration))[0]
                &&& pending(*final(enumeration)) == pending(*old(enumeration)).skip(1)
            },
            None => {
                &&& pending(*old(enumeration)).len() == 0
                &&& pending(*final(enumeration)) == pending(*old(enumeration))
            },
        },
{
    enumeration.inner.next()
}

/// `String::push` appends one character to the string.
pub assume_specification[ String::push ](text: &mut String, symbol: char)
    ensures
        final(text)@ == old(text)@.push(symbol),
;

/// The candidates of one length over an alphabet, given one at a time.
pub struct Candidates {
    enumeration: Combinations,
}

impl View for Candidates {
    type V = Seq<Seq<char>>;

    /// The candidates still to come, in order.
    closed spec fn view(&self) -> Seq<Seq<char>> {
        pending(self.enumeration)
    }
}

impl Candidates {
    /// Starts the enumeration of the candidates of `length` symbols over
    /// `alphabet`. Each call starts afresh. The length may be any that the
    /// machine can hold a candidate of.
    pub fn new(alphabet: &Vec<char>, length: usize) -> (candidates: Candidates)
        requires
            length <= MAX_LENGTH,
        ensures
            candidates@ == combinations(alphabet@, length as nat),
    {
        Candidates { enumeration: start(alphabet, length) }
    }

    /// Gives the next candidate, its symbols joined into a string in the
    /// order in which they were chosen; `None` when all have been given.
    pub fn next(&mut self) -> (candidate: Option<String>)
        ensures
            match candidate {
                Some(text) => {
                    &&& old(self)@.len() > 0
                    &&& text@ == old(self)@[0]
                    &&& final(self)@ == old(self)@.skip(1)
                },
                None => old(self)@.len() == 0 && final(self)@ == old(self)@,
            },
    {
        match advance(&mut self.enumeration) {
            Some(symbols) => Some(join(&symbols)),
            None => None,
        }
    }
}

/// Joins symbols into a string.
pub fn join(symbols: &Vec<char>) -> (text: String)
    ensures
        text@ == symbols@,
{
    let mut text = String::new();
    let mut i: usize = 0;
    while i < symbols.len()
        invariant
            i <= symbols.len(),
            text@ == symbols@.take(i as int),
        decreases symbols.len() - i,
    {
        text.push(symbols[i]);
        assert(symbols@.take(i + 1) =~= symbols@.take(i as int).push(symbols@[i as int]));
        i = i + 1;
    }
    assert(symbols@.take(i as int) =~= symbols@);
    text
}

} // verus!
