//! Queries over a table held as a sequence of rows: first match, count, sum.
use vstd::prelude::*;

verus! {

/// `i` is the first row of `rows` that satisfies `p`.
pub open spec fn is_first<T>(rows: Seq<T>, p: spec_fn(T) -> bool, i: int) -> bool {
    &&& 0 <= i < rows.len()
    &&& p(rows[i])
    &&& forall|j: int| 0 <= j < i ==> !p(#[trigger] rows[j])
}

/// Some row of `rows` satisfies `p`.
pub open spec fn any_row<T>(rows: Seq<T>, p: spec_fn(T) -> bool) -> bool {
    exists|i: int| 0 <= i < rows.len() && p(#[trigger] rows[i])
}

/// The position of the first row that satisfies `p`.
pub open spec fn first_row<T>(rows: Seq<T>, p: spec_fn(T) -> bool) -> Option<int> {
    if any_row(rows, p) {
        Some(choose|i: int| is_first(rows, p, i))
    } else {
        None
    }
}

/// How many rows satisfy `p`.
pub open spec fn count_rows<T>(rows: Seq<T>, p: spec_fn(T) -> bool) -> nat
    decreases rows.len(),
{
    if rows.len() == 0 {
        0
    } else {
        count_rows(rows.drop_last(), p) + if p(rows.last()) {
            1nat
        } else {
            0nat
        }
    }
}

/// The sum of `f` over the rows that satisfy `p`.
pub open spec fn sum_rows<T>(rows: Seq<T>, p: spec_fn(T) -> bool, f: spec_fn(T) -> int) -> int
    decreases rows.len(),
{
    if rows.len() == 0 {
        0
    } else {
        sum_rows(rows.drop_last(), p, f) + if p(rows.last()) {
            f(rows.last())
        } else {
            0
        }
    }
}

/// The largest `f` of the rows that satisfy `p`.
pub open spec fn max_rows<T>(rows: Seq<T>, p: spec_fn(T) -> bool, f: spec_fn(T) -> i64) -> Option<
    i64,
>
    decreases rows.len(),
{
    if rows.len() == 0 {
        None
    } else {
        let m = max_rows(rows.drop_last(), p, f);
        if !p(rows.last()) {
            m
        } else {
            match m {
                Some(n) => Some(
                    if f(rows.last()) > n {
                        f(rows.last())
                    } else {
                        n
                    },
                ),
                None => Some(f(rows.last())),
            }
        }
    }
}

/// The rows that satisfy `p`, in table order.
pub open spec fn select_rows<T>(rows: Seq<T>, p: spec_fn(T) -> bool) -> Seq<T>
    decreases rows.len(),
{
    if rows.len() == 0 {
        Seq::empty()
    } else if p(rows.last()) {
        select_rows(rows.drop_last(), p).push(rows.last())
    } else {
        select_rows(rows.drop_last(), p)
    }
}

/// A first match is the position that `first_row` reports.
pub proof fn lemma_first_row<T>(rows: Seq<T>, p: spec_fn(T) -> bool, i: int)
    requires
        is_first(rows, p, i),
    ensures
        first_row(rows, p) == Some(i),
        any_row(rows, p),
{
    assert(p(rows[i]));
    let k = choose|k: int| is_first(rows, p, k);
    assert(is_first(rows, p, k));
    if k < i {
        assert(!p(rows[k]));
    }
    if i < k {
        assert(!p(rows[i]));
    }
}

/// What `first_row` reports is a first match.
pub proof fn lemma_first_row_is_first<T>(rows: Seq<T>, p: spec_fn(T) -> bool)
    ensures
        first_row(rows, p) matches Some(i) ==> is_first(rows, p, i),
        first_row(rows, p) is Some <==> any_row(rows, p),
{
    if any_row(rows, p) {
        let w = choose|i: int| 0 <= i < rows.len() && p(#[trigger] rows[i]);
        lemma_least(rows, p, w);
    }
}

proof fn lemma_least<T>(rows: Seq<T>, p: spec_fn(T) -> bool, w: int)
    requires
        0 <= w < rows.len(),
        p(rows[w]),
    ensures
        exists|i: int| is_first(rows, p, i),
    decreases w,
{
    if forall|j: int| 0 <= j < w ==> !p(#[trigger] rows[j]) {
        assert(is_first(rows, p, w));
    } else {
        let j = choose|j: int| 0 <= j < w && p(#[trigger] rows[j]);
        lemma_least(rows, p, j);
    }
}

/// One more row of a scan changes a count by that row's own share.
pub proof fn lemma_count_step<T>(rows: Seq<T>, p: spec_fn(T) -> bool, i: int)
    requires
        0 <= i < rows.len(),
    ensures
        count_rows(rows.take(i + 1), p) == count_rows(rows.take(i), p) + if p(rows[i]) {
            1nat
        } else {
            0nat
        },
{
    assert(rows.take(i + 1).drop_last() =~= rows.take(i));
}

/// A count never exceeds the number of rows.
pub proof fn lemma_count_bound<T>(rows: Seq<T>, p: spec_fn(T) -> bool)
    ensures
        count_rows(rows, p) <= rows.len(),
    decreases rows.len(),
{
    if rows.len() > 0 {
        lemma_count_bound(rows.drop_last(), p);
    }
}

/// One more row of a scan changes a sum by that row's own share.
pub proof fn lemma_sum_step<T>(
    rows: Seq<T>,
    p: spec_fn(T) -> bool,
    f: spec_fn(T) -> int,
    i: int,
)
    requires
        0 <= i < rows.len(),
    ensures
        sum_rows(rows.take(i + 1), p, f) == sum_rows(rows.take(i), p, f) + if p(rows[i]) {
            f(rows[i])
        } else {
            0
        },
{
    assert(rows.take(i + 1).drop_last() =~= rows.take(i));
}

/// One more row of a scan extends a selection by that row, or leaves it.
pub proof fn lemma_select_step<T>(rows: Seq<T>, p: spec_fn(T) -> bool, i: int)
    requires
        0 <= i < rows.len(),
    ensures
        select_rows(rows.take(i + 1), p) == if p(rows[i]) {
            select_rows(rows.take(i), p).push(rows[i])
        } else {
            select_rows(rows.take(i), p)
        },
{
    assert(rows.take(i + 1).drop_last() =~= rows.take(i));
}

/// What is selected stands in the table and satisfies `p`.
pub proof fn lemma_selected<T>(rows: Seq<T>, p: spec_fn(T) -> bool, j: int)
    requires
        0 <= j < select_rows(rows, p).len(),
    ensures
        p(select_rows(rows, p)[j]),
        exists|i: int| 0 <= i < rows.len() && #[trigger] rows[i] == select_rows(rows, p)[j],
    decreases rows.len(),
{
    if rows.len() > 0 {
        let rest = rows.drop_last();
        if p(rows.last()) && j == select_rows(rest, p).len() {
            assert(rows[rows.len() - 1] == select_rows(rows, p)[j]);
        } else {
            lemma_selected(rest, p, j);
            let i = choose|i: int| 0 <= i < rest.len() && #[trigger] rest[i] == select_rows(rest, p)[j];
            assert(rows[i] == select_rows(rows, p)[j]);
        }
    }
}

/// What stands in the table and satisfies `p` is selected.
pub proof fn lemma_selects_all<T>(rows: Seq<T>, p: spec_fn(T) -> bool, i: int)
    requires
        0 <= i < rows.len(),
        p(rows[i]),
    ensures
        select_rows(rows, p).contains(rows[i]),
    decreases rows.len(),
{
    let rest = rows.drop_last();
    let sel = select_rows(rows, p);
    if i == rows.len() - 1 {
        assert(sel[sel.len() - 1] == rows[i]);
    } else {
        lemma_selects_all(rest, p, i);
        let j = choose|j: int|
            0 <= j < select_rows(rest, p).len() && select_rows(rest, p)[j] == rest[i];
        assert(sel[j] == rows[i]);
    }
}

/// Nothing is selected twice out of a table that holds nothing twice.
pub proof fn lemma_selects_once<T>(rows: Seq<T>, p: spec_fn(T) -> bool)
    requires
        rows.no_duplicates(),
    ensures
        select_rows(rows, p).no_duplicates(),
    decreases rows.len(),
{
    if rows.len() > 0 {
        let rest = rows.drop_last();
        lemma_selects_once(rest, p);
        let sel = select_rows(rest, p);
        assert forall|j: int| 0 <= j < sel.len() implies #[trigger] sel[j] != rows.last() by {
            lemma_selected(rest, p, j);
            let i = choose|i: int| 0 <= i < rest.len() && #[trigger] rest[i] == sel[j];
            assert(rest[i] == rows[i]);
            assert(rows[i] != rows[rows.len() - 1]);
        }
    }
}

/// What one row adds to a sum.
pub open spec fn part<T>(x: T, p: spec_fn(T) -> bool, f: spec_fn(T) -> int) -> int {
    if p(x) {
        f(x)
    } else {
        0
    }
}

/// Another row in the place of one changes a sum by what the two add.
pub proof fn lemma_sum_update<T>(
    rows: Seq<T>,
    p: spec_fn(T) -> bool,
    f: spec_fn(T) -> int,
    i: int,
    x: T,
)
    requires
        0 <= i < rows.len(),
    ensures
        sum_rows(rows.update(i, x), p, f) == sum_rows(rows, p, f) - part(rows[i], p, f) + part(
            x,
            p,
            f,
        ),
    decreases rows.len(),
{
    let last = rows.len() - 1;
    if i == last {
        assert(rows.update(i, x).drop_last() =~= rows.drop_last());
    } else {
        lemma_sum_update(rows.drop_last(), p, f, i, x);
        assert(rows.update(i, x).drop_last() =~= rows.drop_last().update(i, x));
    }
}

/// A scan that has seen every row has seen the table.
pub proof fn lemma_take_all<T>(rows: Seq<T>)
    ensures
        rows.take(rows.len() as int) == rows,
        rows.take(0) == Seq::<T>::empty(),
{
    assert(rows.take(rows.len() as int) =~= rows);
    assert(rows.take(0) =~= Seq::<T>::empty());
}

/// The value behind an optional text column.
pub open spec fn text_of(o: Option<String>) -> Option<Seq<char>> {
    match o {
        Some(s) => Some(s@),
        None => None,
    }
}

/// Whether two texts are the same.
pub fn text_eq(a: &str, b: &str) -> (r: bool)
    ensures
        r == (a@ == b@),
{
    a.to_owned() == b.to_owned()
}

/// Whether an optional text column holds exactly `b`.
pub fn text_is(a: &Option<String>, b: &str) -> (r: bool)
    ensures
        r == (text_of(*a) == Some(b@)),
{
    match a {
        Some(s) => text_eq(s.as_str(), b),
        None => false,
    }
}

/// The `White_Space` characters of Unicode.
pub open spec fn is_white_space(c: char) -> bool {
    ||| 0x09 <= c as int <= 0x0d
    ||| c as int == 0x20
    ||| c as int == 0x85
    ||| c as int == 0xa0
    ||| c as int == 0x1680
    ||| 0x2000 <= c as int <= 0x200a
    ||| c as int == 0x2028
    ||| c as int == 0x2029
    ||| c as int == 0x202f
    ||| c as int == 0x205f
    ||| c as int == 0x3000
}

/// Whether `c` is white space.
pub fn white_space(c: char) -> (r: bool)
    ensures
        r == is_white_space(c),
{
    let n: u32 = c as u32;
    (0x09 <= n && n <= 0x0d) || n == 0x20 || n == 0x85 || n == 0xa0 || n == 0x1680 || (0x2000 <= n
        && n <= 0x200a) || n == 0x2028 || n == 0x2029 || n == 0x202f || n == 0x205f || n == 0x3000
}

/// A text with nothing in it but white space.
pub open spec fn blank(s: Seq<char>) -> bool {
    forall|i: int| 0 <= i < s.len() ==> is_white_space(#[trigger] s[i])
}

/// Whether `s` is blank.
pub fn is_blank(s: &str) -> (r: bool)
    ensures
        r == blank(s@),
{
    let n: usize = s.unicode_len();
    let mut i: usize = 0;
    while i < n
        invariant
            n == s@.len(),
            i <= n,
            forall|j: int| 0 <= j < i ==> is_white_space(#[trigger] s@[j]),
        decreases n - i,
    {
        let c = s.get_char(i);
        if !white_space(c) {
            assert(!is_white_space(s@[i as int]));
            return false;
        }
        i = i + 1;
    }
    true
}

/// Adds a signed amount to another, or `None` where the sum is no `i64`.
pub fn add_checked(a: i64, b: i64) -> (r: Option<i64>)
    ensures
        r == (if i64::MIN <= a + b <= i64::MAX {
            Some((a + b) as i64)
        } else {
            None
        }),
{
    let s: i128 = a as i128 + b as i128;
    if s < i64::MIN as i128 || s > i64::MAX as i128 {
        None
    } else {
        Some(s as i64)
    }
}

/// Subtracts one signed amount from another, or `None` where the difference
/// is no `i64`.
pub fn sub_checked(a: i64, b: i64) -> (r: Option<i64>)
    ensures
        r == (if i64::MIN <= a - b <= i64::MAX {
            Some((a - b) as i64)
        } else {
            None
        }),
{
    let s: i128 = a as i128 - b as i128;
    if s < i64::MIN as i128 || s > i64::MAX as i128 {
        None
    } else {
        Some(s as i64)
    }
}

/// The values of the rows of a table.
pub open spec fn values<R: View>(rows: Seq<R>) -> Seq<R::V> {
    Seq::new(rows.len(), |i: int| rows[i]@)
}

/// The position of the first row whose value satisfies `q`, which `p` tests.
pub(crate) fn find_where<T: View, P: Fn(&T) -> bool>(
    rows: &Vec<T>,
    p: P,
    Ghost(q): Ghost<spec_fn(T::V) -> bool>,
) -> (r: Option<usize>)
    requires
        forall|x: &T| #[trigger] call_requires(p, (x,)),
        forall|x: &T, b: bool| #[trigger] call_ensures(p, (x,), b) ==> b == q(x@),
    ensures
        match r {
            Some(i) => {
                &&& i < rows@.len()
                &&& first_row(values(rows@), q) == Some(i as int)
                &&& any_row(values(rows@), q)
                &&& is_first(values(rows@), q, i as int)
                &&& q(rows@[i as int]@)
                &&& values(rows@)[i as int] == rows@[i as int]@
            },
            None => first_row(values(rows@), q) is None && !any_row(values(rows@), q),
        },
{
    let mut i: usize = 0;
    while i < rows.len()
        invariant
            i <= rows@.len(),
            forall|x: &T| #[trigger] call_requires(p, (x,)),
            forall|x: &T, b: bool| #[trigger] call_ensures(p, (x,), b) ==> b == q(x@),
            forall|j: int| 0 <= j < i ==> !q(#[trigger] values(rows@)[j]),
        decreases rows@.len() - i,
    {
        let hit = p(&rows[i]);
        proof {
            assert(values(rows@)[i as int] == rows@[i as int]@);
        }
        if hit {
            proof {
                lemma_first_row(values(rows@), q, i as int);
            }
            return Some(i);
        }
        i = i + 1;
    }
    None
}

/// Whether some row's value satisfies `q`, which `p` tests.
pub(crate) fn any_where<T: View, P: Fn(&T) -> bool>(
    rows: &Vec<T>,
    p: P,
    Ghost(q): Ghost<spec_fn(T::V) -> bool>,
) -> (r: bool)
    requires
        forall|x: &T| #[trigger] call_requires(p, (x,)),
        forall|x: &T, b: bool| #[trigger] call_ensures(p, (x,), b) ==> b == q(x@),
    ensures
        r == any_row(values(rows@), q),
{
    find_where(rows, p, Ghost(q)).is_some()
}

/// How many rows' values satisfy `q`, which `p` tests.
pub(crate) fn count_where<T: View, P: Fn(&T) -> bool>(
    rows: &Vec<T>,
    p: P,
    Ghost(q): Ghost<spec_fn(T::V) -> bool>,
) -> (r: usize)
    requires
        forall|x: &T| #[trigger] call_requires(p, (x,)),
        forall|x: &T, b: bool| #[trigger] call_ensures(p, (x,), b) ==> b == q(x@),
    ensures
        r == count_rows(values(rows@), q),
        r <= rows@.len(),
{
    let mut i: usize = 0;
    let mut n: usize = 0;
    proof {
        lemma_take_all(values(rows@));
    }
    while i < rows.len()
        invariant
            i <= rows@.len(),
            n <= i,
            n == count_rows(values(rows@).take(i as int), q),
            forall|x: &T| #[trigger] call_requires(p, (x,)),
            forall|x: &T, b: bool| #[trigger] call_ensures(p, (x,), b) ==> b == q(x@),
        decreases rows@.len() - i,
    {
        proof {
            lemma_count_step(values(rows@), q, i as int);
        }
        if p(&rows[i]) {
            n = n + 1;
        }
        i = i + 1;
    }
    n
}

/// No sum of the stored amounts of a table lies beyond this.
pub const SUM_BOUND: i128 = 0x7fff_ffff_ffff_ffff_8000_0000_0000_0000;

/// The sum of `g`, which `f` computes, over the rows whose values satisfy
/// `q`, which `p` tests.
pub(crate) fn sum_where<T: View, P: Fn(&T) -> bool, F: Fn(&T) -> i64>(
    rows: &Vec<T>,
    p: P,
    f: F,
    Ghost(q): Ghost<spec_fn(T::V) -> bool>,
    Ghost(g): Ghost<spec_fn(T::V) -> int>,
) -> (r: i128)
    requires
        forall|x: &T| #[trigger] call_requires(p, (x,)),
        forall|x: &T, b: bool| #[trigger] call_ensures(p, (x,), b) ==> b == q(x@),
        forall|x: &T| #[trigger] call_requires(f, (x,)),
        forall|x: &T, n: i64| #[trigger] call_ensures(f, (x,), n) ==> n == g(x@),
    ensures
        r == sum_rows(values(rows@), q, g),
        -SUM_BOUND <= r <= SUM_BOUND,
{
    let mut i: usize = 0;
    let mut n: i128 = 0;
    proof {
        lemma_take_all(values(rows@));
    }
    while i < rows.len()
        invariant
            i <= rows@.len(),
            i64::MIN * i <= n <= i64::MAX * i,
            n == sum_rows(values(rows@).take(i as int), q, g),
            forall|x: &T| #[trigger] call_requires(p, (x,)),
            forall|x: &T, b: bool| #[trigger] call_ensures(p, (x,), b) ==> b == q(x@),
            forall|x: &T| #[trigger] call_requires(f, (x,)),
            forall|x: &T, n: i64| #[trigger] call_ensures(f, (x,), n) ==> n == g(x@),
        decreases rows@.len() - i,
    {
        proof {
            lemma_sum_step(values(rows@), q, g, i as int);
        }
        if p(&rows[i]) {
            n = n + f(&rows[i]) as i128;
        }
        i = i + 1;
    }
    assert(i <= 0xffff_ffff_ffff_ffff);
    n
}

/// The largest `g`, which `f` computes, of the rows whose values satisfy `q`,
/// which `p` tests.
pub(crate) fn max_where<T: View, P: Fn(&T) -> bool, F: Fn(&T) -> i64>(
    rows: &Vec<T>,
    p: P,
    f: F,
    Ghost(q): Ghost<spec_fn(T::V) -> bool>,
    Ghost(g): Ghost<spec_fn(T::V) -> i64>,
) -> (r: Option<i64>)
    requires
        forall|x: &T| #[trigger] call_requires(p, (x,)),
        forall|x: &T, b: bool| #[trigger] call_ensures(p, (x,), b) ==> b == q(x@),
        forall|x: &T| #[trigger] call_requires(f, (x,)),
        forall|x: &T, n: i64| #[trigger] call_ensures(f, (x,), n) ==> n == g(x@),
    ensures
        r == max_rows(values(rows@), q, g),
{
    let mut i: usize = 0;
    let mut m: Option<i64> = None;
    proof {
        lemma_take_all(values(rows@));
    }
    while i < rows.len()
        invariant
            i <= rows@.len(),
            m == max_rows(values(rows@).take(i as int), q, g),
            forall|x: &T| #[trigger] call_requires(p, (x,)),
            forall|x: &T, b: bool| #[trigger] call_ensures(p, (x,), b) ==> b == q(x@),
            forall|x: &T| #[trigger] call_requires(f, (x,)),
            forall|x: &T, n: i64| #[trigger] call_ensures(f, (x,), n) ==> n == g(x@),
        decreases rows@.len() - i,
    {
        proof {
            let rv = values(rows@);
            assert(rv.take(i + 1).drop_last() =~= rv.take(i as int));
            assert(rv.take(i + 1).last() == rows@[i as int]@);
        }
        if p(&rows[i]) {
            let n: i64 = f(&rows[i]);
            m = match m {
                Some(best) => if n > best {
                    Some(n)
                } else {
                    Some(best)
                },
                None => Some(n),
            };
        }
        i = i + 1;
    }
    m
}

/// What `f` makes of each row whose value satisfies `q`, in table order; `p`
/// tests `q`, and `g` says what `f` makes.
pub(crate) fn collect_where<T: View, U: View, P: Fn(&T) -> bool, F: Fn(&T) -> U>(
    rows: &Vec<T>,
    p: P,
    f: F,
    Ghost(q): Ghost<spec_fn(T::V) -> bool>,
    Ghost(g): Ghost<spec_fn(T::V) -> U::V>,
) -> (r: Vec<U>)
    requires
        forall|x: &T| #[trigger] call_requires(p, (x,)),
        forall|x: &T, b: bool| #[trigger] call_ensures(p, (x,), b) ==> b == q(x@),
        forall|x: &T| q(x@) ==> #[trigger] call_requires(f, (x,)),
        forall|x: &T, u: U| q(x@) && #[trigger] call_ensures(f, (x,), u) ==> u@ == g(x@),
    ensures
        values(r@) == select_rows(values(rows@), q).map_values(g),
{
    let mut i: usize = 0;
    let mut out: Vec<U> = Vec::new();
    proof {
        lemma_take_all(values(rows@));
        assert(values(out@) =~= Seq::<T::V>::empty().map_values(g));
    }
    while i < rows.len()
        invariant
            i <= rows@.len(),
            values(out@) == select_rows(values(rows@).take(i as int), q).map_values(g),
            forall|x: &T| #[trigger] call_requires(p, (x,)),
            forall|x: &T, b: bool| #[trigger] call_ensures(p, (x,), b) ==> b == q(x@),
            forall|x: &T| q(x@) ==> #[trigger] call_requires(f, (x,)),
            forall|x: &T, u: U| q(x@) && #[trigger] call_ensures(f, (x,), u) ==> u@ == g(x@),
        decreases rows@.len() - i,
    {
        proof {
            lemma_select_step(values(rows@), q, i as int);
        }
        if p(&rows[i]) {
            let ghost before = out@;
            let u = f(&rows[i]);
            let ghost uv = u@;
            out.push(u);
            proof {
                let sel = select_rows(values(rows@).take(i as int), q);
                assert(sel.push(values(rows@)[i as int]).map_values(g) =~= sel.map_values(g).push(
                    g(values(rows@)[i as int]),
                ));
                assert(values(out@) =~= values(before).push(uv));
            }
        }
        i = i + 1;
    }
    out
}

/// `le` orders any two values, and chains.
pub open spec fn total_order<V>(le: spec_fn(V, V) -> bool) -> bool {
    &&& forall|a: V, b: V| #[trigger] le(a, b) || le(b, a)
    &&& forall|a: V, b: V, c: V| #[trigger] le(a, b) && #[trigger] le(b, c) ==> le(a, c)
}

/// Every value stands before those that it is ordered before.
pub open spec fn sorted_by<V>(s: Seq<V>, le: spec_fn(V, V) -> bool) -> bool {
    forall|i: int, j: int| 0 <= i < j < s.len() ==> le(#[trigger] s[i], #[trigger] s[j])
}

proof fn lemma_insert_multiset<V>(s: Seq<V>, k: int, v: V)
    requires
        0 <= k <= s.len(),
    ensures
        s.insert(k, v).to_multiset() == s.to_multiset().insert(v),
{
    broadcast use vstd::seq_lib::group_to_multiset_ensures;
    let a = s.take(k);
    let b = s.skip(k);
    assert(s =~= a + b);
    assert(s.insert(k, v) =~= a.push(v) + b);
    vstd::seq_lib::lemma_multiset_commutative(a, b);
    vstd::seq_lib::lemma_multiset_commutative(a.push(v), b);
    assert(a.push(v).to_multiset() == a.to_multiset().insert(v));
    assert((a.push(v) + b).to_multiset() =~= (a + b).to_multiset().insert(v));
}

/// The rows in the order of `q`, which `le` tests.
pub(crate) fn sort_rows<T: View, L: Fn(&T, &T) -> bool>(
    rows: Vec<T>,
    le: L,
    Ghost(q): Ghost<spec_fn(T::V, T::V) -> bool>,
) -> (r: Vec<T>)
    requires
        total_order(q),
        forall|x: &T, y: &T| #[trigger] call_requires(le, (x, y)),
        forall|x: &T, y: &T, b: bool| #[trigger] call_ensures(le, (x, y), b) ==> b == q(x@, y@),
    ensures
        sorted_by(values(r@), q),
        values(r@).to_multiset() == values(rows@).to_multiset(),
{
    let mut rest = rows;
    let mut out: Vec<T> = Vec::new();
    proof {
        broadcast use vstd::seq_lib::group_to_multiset_ensures;
        assert(values(out@) =~= Seq::<T::V>::empty());
        assert(values(rest@).to_multiset().add(values(out@).to_multiset()) =~= values(
            rows@,
        ).to_multiset());
    }
    while rest.len() > 0
        invariant
            total_order(q),
            forall|x: &T, y: &T| #[trigger] call_requires(le, (x, y)),
            forall|x: &T, y: &T, b: bool| #[trigger]
                call_ensures(le, (x, y), b) ==> b == q(x@, y@),
            sorted_by(values(out@), q),
            values(rest@).to_multiset().add(values(out@).to_multiset()) == values(
                rows@,
            ).to_multiset(),
        decreases rest@.len(),
    {
        let ghost rest0 = values(rest@);
        let x = rest.pop().unwrap();
        let ghost xv = x@;
        proof {
            assert(values(rest@) =~= rest0.drop_last());
            assert(rest0 =~= rest0.drop_last().push(xv));
        }
        let mut k: usize = 0;
        while k < out.len() && !le(&x, &out[k])
            invariant
                k <= out@.len(),
                xv == x@,
                forall|x: &T, y: &T| #[trigger] call_requires(le, (x, y)),
                forall|x: &T, y: &T, b: bool| #[trigger]
                    call_ensures(le, (x, y), b) ==> b == q(x@, y@),
                forall|j: int| 0 <= j < k ==> !q(xv, #[trigger] values(out@)[j]),
            ensures
                k <= out@.len(),
                forall|j: int| 0 <= j < k ==> !q(xv, #[trigger] values(out@)[j]),
                k < out@.len() ==> q(xv, values(out@)[k as int]),
            decreases out@.len() - k,
        {
            k = k + 1;
        }
        let ghost out0 = values(out@);
        out.insert(k, x);
        proof {
            broadcast use vstd::seq_lib::group_to_multiset_ensures;
            assert(values(out@) =~= out0.insert(k as int, xv));
            lemma_insert_multiset(out0, k as int, xv);
            let new = values(out@);
            assert forall|i: int, j: int| 0 <= i < j < new.len() implies q(
                #[trigger] new[i],
                #[trigger] new[j],
            ) by {
                if i == k {
                    assert(new[j] == out0[j - 1]);
                    if k < j - 1 {
                        assert(q(out0[k as int], out0[j - 1]));
                    }
                    assert(q(xv, out0[k as int]));
                } else if j == k {
                    assert(new[i] == out0[i]);
                    assert(!q(xv, out0[i]));
                    assert(q(out0[i], xv) || q(xv, out0[i]));
                } else {
                    let oi = if i < k { i } else { i - 1 };
                    let oj = if j < k { j } else { j - 1 };
                    assert(q(out0[oi], out0[oj]));
                }
            }
            assert(values(rest@).to_multiset().add(values(out@).to_multiset()) =~= values(
                rows@,
            ).to_multiset());
        }
    }
    proof {
        broadcast use vstd::seq_lib::group_to_multiset_ensures;
        assert(values(rest@) =~= Seq::<T::V>::empty());
        assert(values(out@).to_multiset() =~= values(rows@).to_multiset());
    }
    out
}

/// A wide sum as a stored amount, or `None` where it does not fit.
pub fn narrow(n: i128) -> (r: Option<i64>)
    ensures
        r == (if i64::MIN <= n <= i64::MAX {
            Some(n as i64)
        } else {
            None
        }),
{
    if n < i64::MIN as i128 || n > i64::MAX as i128 {
        None
    } else {
        Some(n as i64)
    }
}

/// Whether two hashes are the same.
pub fn eq32(a: &[u8; 32], b: &[u8; 32]) -> (r: bool)
    ensures
        r == (*a == *b),
{
    let mut i: usize = 0;
    while i < 32
        invariant
            i <= 32,
            forall|j: int| 0 <= j < i ==> a@[j] == b@[j],
        decreases 32 - i,
    {
        if a[i] != b[i] {
            assert(a@[i as int] != b@[i as int]);
            return false;
        }
        i = i + 1;
    }
    assert(a@ =~= b@);
    assert(*a =~= *b);
    true
}

/// Whether an optional hash is exactly `b`.
pub fn is32(a: &Option<[u8; 32]>, b: &[u8; 32]) -> (r: bool)
    ensures
        r == (*a == Some(*b)),
{
    match a {
        Some(x) => eq32(x, b),
        None => false,
    }
}

/// `a` comes no later than `b` in the order of its bytes.
pub open spec fn bytes_le(a: Seq<u8>, b: Seq<u8>) -> bool
    decreases a.len(),
{
    if a.len() == 0 {
        true
    } else if b.len() == 0 {
        false
    } else if a[0] != b[0] {
        a[0] < b[0]
    } else {
        bytes_le(a.skip(1), b.skip(1))
    }
}

/// The byte order is total, chains, and is strict between different strings.
pub proof fn lemma_bytes_order(a: Seq<u8>, b: Seq<u8>, c: Seq<u8>)
    ensures
        bytes_le(a, b) || bytes_le(b, a),
        bytes_le(a, b) && bytes_le(b, c) ==> bytes_le(a, c),
        bytes_le(a, b) && bytes_le(b, a) ==> a == b,
    decreases a.len() + b.len() + c.len(),
{
    if a.len() > 0 && b.len() > 0 && c.len() > 0 {
        lemma_bytes_order(a.skip(1), b.skip(1), c.skip(1));
    } else if a.len() > 0 && b.len() > 0 {
        lemma_bytes_order(a.skip(1), b.skip(1), c);
    }
    if bytes_le(a, b) && bytes_le(b, a) {
        if a.len() == 0 || b.len() == 0 {
            assert(a =~= b);
        } else {
            assert(a =~= seq![a[0]] + a.skip(1));
            assert(b =~= seq![b[0]] + b.skip(1));
        }
    }
}

/// Whether `a` comes no later than `b` in the order of its bytes.
pub fn le32(a: &[u8; 32], b: &[u8; 32]) -> (r: bool)
    ensures
        r == bytes_le(a@, b@),
{
    let mut i: usize = 0;
    proof {
        assert(a@.skip(0) =~= a@);
        assert(b@.skip(0) =~= b@);
    }
    while i < 32
        invariant
            i <= 32,
            bytes_le(a@, b@) == bytes_le(a@.skip(i as int), b@.skip(i as int)),
        decreases 32 - i,
    {
        proof {
            assert(a@.skip(i as int)[0] == a@[i as int]);
            assert(b@.skip(i as int)[0] == b@[i as int]);
            assert(a@.skip(i as int).skip(1) =~= a@.skip(i + 1));
            assert(b@.skip(i as int).skip(1) =~= b@.skip(i + 1));
        }
        if a[i] != b[i] {
            return a[i] < b[i];
        }
        i = i + 1;
    }
    true
}

/// `s` without the white space at its two ends.
pub open spec fn trimmed(s: Seq<char>) -> Seq<char>
    decreases s.len(),
{
    if s.len() > 0 && is_white_space(s[0]) {
        trimmed(s.skip(1))
    } else if s.len() > 0 && is_white_space(s.last()) {
        trimmed(s.drop_last())
    } else {
        s
    }
}

/// `s` without the white space at its two ends.
pub fn trim(s: &str) -> (r: &str)
    ensures
        r@ == trimmed(s@),
{
    let n: usize = s.unicode_len();
    let mut from: usize = 0;
    let mut to: usize = n;
    proof {
        assert(s@.subrange(0, n as int) =~= s@);
    }
    while from < to && white_space(s.get_char(from))
        invariant
            n == s@.len(),
            from <= to,
            to == n,
            trimmed(s@) == trimmed(s@.subrange(from as int, to as int)),
        ensures
            n == s@.len(),
            from <= to,
            to == n,
            trimmed(s@) == trimmed(s@.subrange(from as int, to as int)),
            from < to ==> !is_white_space(s@[from as int]),
        decreases to - from,
    {
        proof {
            assert(s@.subrange(from as int, to as int)[0] == s@[from as int]);
            assert(s@.subrange(from as int, to as int).skip(1) =~= s@.subrange(
                from + 1,
                to as int,
            ));
        }
        from = from + 1;
    }
    while from < to && white_space(s.get_char(to - 1))
        invariant
            n == s@.len(),
            from <= to <= n,
            trimmed(s@) == trimmed(s@.subrange(from as int, to as int)),
            from < to ==> !is_white_space(s@[from as int]),
        ensures
            n == s@.len(),
            from <= to <= n,
            trimmed(s@) == trimmed(s@.subrange(from as int, to as int)),
            from < to ==> !is_white_space(s@[from as int]),
            from < to ==> !is_white_space(s@[to - 1]),
        decreases to - from,
    {
        proof {
            assert(s@.subrange(from as int, to as int)[0] == s@[from as int]);
            assert(s@.subrange(from as int, to as int).last() == s@[to - 1]);
            assert(s@.subrange(from as int, to as int).drop_last() =~= s@.subrange(
                from as int,
                to - 1,
            ));
        }
        to = to - 1;
    }
    let r = s.substring_char(from, to);
    proof {
        if from < to {
            assert(r@[0] == s@[from as int]);
            assert(r@.last() == s@[to - 1]);
        }
    }
    r
}

/// A blank text is one of which trimming leaves nothing.
pub proof fn lemma_blank_trims_to_nothing(s: Seq<char>)
    ensures
        blank(s) <==> trimmed(s).len() == 0,
    decreases s.len(),
{
    if s.len() > 0 && is_white_space(s[0]) {
        lemma_blank_trims_to_nothing(s.skip(1));
        assert forall|i: int| blank(s.skip(1)) && 0 <= i < s.len() implies is_white_space(
            #[trigger] s[i],
        ) by {
            if i > 0 {
                assert(is_white_space(s.skip(1)[i - 1]));
            }
        }
        if blank(s) {
            assert forall|i: int| 0 <= i < s.skip(1).len() implies is_white_space(
                #[trigger] s.skip(1)[i],
            ) by {
                assert(is_white_space(s[i + 1]));
            }
        }
    } else if s.len() > 0 && is_white_space(s.last()) {
        lemma_blank_trims_to_nothing(s.drop_last());
        assert(!blank(s));
        assert(!is_white_space(s[0]));
        assert(s.drop_last()[0] == s[0]);
        assert(!blank(s.drop_last()));
    } else if s.len() > 0 {
        assert(!is_white_space(s[0]));
    }
}

/// The part of `s` before its first `c`.
pub open spec fn before_char(s: Seq<char>, c: char) -> Seq<char>
    decreases s.len(),
{
    if s.len() == 0 || s[0] == c {
        Seq::empty()
    } else {
        seq![s[0]] + before_char(s.skip(1), c)
    }
}

/// The part of `s` before its first `c`.
pub fn split_before(s: &str, c: char) -> (r: &str)
    ensures
        r@ == before_char(s@, c),
{
    let n: usize = s.unicode_len();
    let mut i: usize = 0;
    proof {
        assert(s@.skip(0) =~= s@);
        assert(s@.take(0) + before_char(s@.skip(0), c) =~= before_char(s@, c));
    }
    while i < n && s.get_char(i) != c
        invariant
            n == s@.len(),
            i <= n,
            before_char(s@, c) == s@.take(i as int) + before_char(s@.skip(i as int), c),
        ensures
            n == s@.len(),
            i <= n,
            before_char(s@, c) == s@.take(i as int) + before_char(s@.skip(i as int), c),
            i < n ==> s@[i as int] == c,
        decreases n - i,
    {
        proof {
            assert(s@.skip(i as int)[0] == s@[i as int]);
            assert(s@.skip(i as int).skip(1) =~= s@.skip(i + 1));
            assert(s@.take(i + 1) =~= s@.take(i as int) + seq![s@[i as int]]);
            assert(s@.take(i as int) + (seq![s@[i as int]] + before_char(s@.skip(i + 1), c))
                =~= s@.take(i + 1) + before_char(s@.skip(i + 1), c));
        }
        i = i + 1;
    }
    let r = s.substring_char(0, i);
    proof {
        if i < n {
            assert(s@.skip(i as int)[0] == s@[i as int]);
        }
        assert(r@ =~= before_char(s@, c));
    }
    r
}

/// Whether `s` begins with `p`.
pub fn begins_with(s: &str, p: &str) -> (r: bool)
    ensures
        r == p@.is_prefix_of(s@),
{
    let n: usize = p.unicode_len();
    if s.unicode_len() < n {
        return false;
    }
    let head = s.substring_char(0, n);
    proof {
        assert(s@.subrange(0, n as int) =~= s@.take(n as int));
    }
    text_eq(head, p)
}

/// The decimal digit of `d`.
pub open spec fn digit(d: nat) -> Seq<char> {
    if d == 0 {
        "0"@
    } else if d == 1 {
        "1"@
    } else if d == 2 {
        "2"@
    } else if d == 3 {
        "3"@
    } else if d == 4 {
        "4"@
    } else if d == 5 {
        "5"@
    } else if d == 6 {
        "6"@
    } else if d == 7 {
        "7"@
    } else if d == 8 {
        "8"@
    } else {
        "9"@
    }
}

/// `n` in decimal.
pub open spec fn decimal_nat(n: nat) -> Seq<char>
    decreases n,
{
    if n < 10 {
        digit(n)
    } else {
        decimal_nat(n / 10) + digit(n % 10)
    }
}

/// `n` in decimal, with its sign where it is negative.
pub open spec fn decimal(n: int) -> Seq<char> {
    if n < 0 {
        "-"@ + decimal_nat((-n) as nat)
    } else {
        decimal_nat(n as nat)
    }
}

fn digit_text(d: u64) -> (r: &'static str)
    requires
        d < 10,
    ensures
        r@ == digit(d as nat),
{
    if d == 0 {
        "0"
    } else if d == 1 {
        "1"
    } else if d == 2 {
        "2"
    } else if d == 3 {
        "3"
    } else if d == 4 {
        "4"
    } else if d == 5 {
        "5"
    } else if d == 6 {
        "6"
    } else if d == 7 {
        "7"
    } else if d == 8 {
        "8"
    } else {
        "9"
    }
}

/// `n` in decimal.
pub fn decimal_u64(n: u64) -> (r: String)
    ensures
        r@ == decimal(n as int),
    decreases n,
{
    if n < 10 {
        digit_text(n).to_owned()
    } else {
        let head = decimal_u64(n / 10);
        concat(head.as_str(), digit_text(n % 10))
    }
}

/// `n` in decimal, with its sign where it is negative.
pub fn decimal_i64(n: i64) -> (r: String)
    ensures
        r@ == decimal(n as int),
{
    if n < 0 {
        let m: u64 = (-(n as i128)) as u64;
        let d = decimal_u64(m);
        concat("-", d.as_str())
    } else {
        decimal_u64(n as u64)
    }
}

/// `a` followed by `b`.
pub fn concat(a: &str, b: &str) -> (r: String)
    ensures
        r@ == a@ + b@,
{
    let mut s = a.to_owned();
    s.append(b);
    s
}


/// Whether two byte strings are the same.
pub fn bytes_eq(a: &[u8], b: &[u8]) -> (r: bool)
    ensures
        r == (a@ == b@),
{
    if a.len() != b.len() {
        return false;
    }
    let mut i: usize = 0;
    while i < a.len()
        invariant
            a@.len() == b@.len(),
            i <= a@.len(),
            forall|j: int| 0 <= j < i ==> a@[j] == b@[j],
        decreases a@.len() - i,
    {
        if a[i] != b[i] {
            assert(a@[i as int] != b@[i as int]);
            return false;
        }
        i = i + 1;
    }
    assert(a@ =~= b@);
    true
}

/// The positions of the last `limit` rows that satisfy `p`, the last first.
pub open spec fn newest<T>(rows: Seq<T>, p: spec_fn(int, T) -> bool, limit: nat) -> Seq<int>
    decreases rows.len(),
{
    if rows.len() == 0 || limit == 0 {
        Seq::empty()
    } else if p(rows.len() - 1, rows.last()) {
        seq![rows.len() - 1] + newest(rows.drop_last(), p, (limit - 1) as nat)
    } else {
        newest(rows.drop_last(), p, limit)
    }
}

/// The positions of the last `limit` rows whose values satisfy `q`, which `p`
/// tests, the last first.
pub(crate) fn newest_where<T: View, P: Fn(usize, &T) -> bool>(
    rows: &Vec<T>,
    p: P,
    limit: u32,
    Ghost(q): Ghost<spec_fn(int, T::V) -> bool>,
) -> (r: Vec<usize>)
    requires
        forall|i: usize, x: &T| #[trigger] call_requires(p, (i, x)),
        forall|i: usize, x: &T, b: bool| #[trigger]
            call_ensures(p, (i, x), b) ==> b == q(i as int, x@),
    ensures
        r@.map_values(|i: usize| i as int) == newest(values(rows@), q, limit as nat),
        forall|k: int| 0 <= k < r@.len() ==> (#[trigger] r@[k]) < rows@.len(),
{
    let ghost rv = values(rows@);
    let mut out: Vec<usize> = Vec::new();
    let mut i: usize = rows.len();
    let ghost f = |i: usize| i as int;
    proof {
        assert(rv.take(rv.len() as int) =~= rv);
        assert(out@.map_values(f) + newest(rv.take(i as int), q, limit as nat) =~= newest(
            rv,
            q,
            limit as nat,
        ));
    }
    while i > 0 && out.len() < limit as usize
        invariant
            i <= rows@.len(),
            rv == values(rows@),
            rv.len() == rows@.len(),
            f == |i: usize| i as int,
            out@.len() <= limit,
            out@.map_values(f) + newest(rv.take(i as int), q, (limit - out@.len()) as nat)
                == newest(rv, q, limit as nat),
            forall|k: int| 0 <= k < out@.len() ==> (#[trigger] out@[k]) < rows@.len(),
            forall|i: usize, x: &T| #[trigger] call_requires(p, (i, x)),
            forall|i: usize, x: &T, b: bool| #[trigger]
                call_ensures(p, (i, x), b) ==> b == q(i as int, x@),
        decreases i,
    {
        let k: usize = i - 1;
        let ghost cut = rv.take(i as int);
        let ghost done = out@;
        proof {
            assert(cut.drop_last() =~= rv.take(k as int));
            assert(cut.last() == rows@[k as int]@);
        }
        if p(k, &rows[k]) {
            out.push(k);
            proof {
                assert(out@.map_values(f) =~= done.map_values(f) + seq![k as int]);
                assert(out@.map_values(f) + newest(
                    rv.take(k as int),
                    q,
                    (limit - out@.len()) as nat,
                ) =~= done.map_values(f) + newest(cut, q, (limit - done.len()) as nat));
            }
        }
        i = k;
    }
    proof {
        assert(newest(rv.take(i as int), q, (limit - out@.len()) as nat) =~= Seq::<int>::empty());
        assert(out@.map_values(f) =~= newest(rv, q, limit as nat));
    }
    out
}

/// The first 32 bytes of `v`, with zeros where it is shorter.
pub fn to_array32(v: &[u8]) -> (r: [u8; 32])
    ensures
        forall|i: int|
            0 <= i < 32 ==> #[trigger] r@[i] == if i < v@.len() {
                v@[i]
            } else {
                0
            },
{
    let mut out: [u8; 32] = [0u8; 32];
    let mut i: usize = 0;
    while i < v.len() && i < 32
        invariant
            i <= 32,
            i <= v@.len(),
            forall|j: int| 0 <= j < i ==> #[trigger] out@[j] == v@[j],
            forall|j: int| i <= j < 32 ==> #[trigger] out@[j] == 0,
        decreases 32 - i,
    {
        out[i] = v[i];
        i = i + 1;
    }
    out
}

} // verus!
