//! What the texts, numbers and bytes of the ledger's columns come to.
use vstd::prelude::*;
use crate::approvals::approval_reason;
use crate::in_flight::RobinhoodActivity;
use crate::payouts::sum_to;
use crate::reasons::reason_prefix;
use crate::requests::mismatch_note;
use crate::table::{
    before_char, blank, bytes_le, count_rows, decimal, decimal_nat, digit, is_white_space,
    lemma_blank_trims_to_nothing, sum_rows, trimmed,
};

verus! {

/// The number that decimal digits write, or nothing where another character stands
/// among them.
pub open spec fn number_written(s: Seq<char>) -> Option<nat>
    decreases s.len(),
{
    if s.len() == 0 {
        Some(0)
    } else {
        let c = s.last() as int;
        match number_written(s.drop_last()) {
            Some(n) => if 0x30 <= c <= 0x39 {
                Some((10 * n + (c - 0x30)) as nat)
            } else {
                None
            },
            None => None,
        }
    }
}

proof fn lemma_digit(d: nat)
    requires
        d < 10,
    ensures
        digit(d).len() == 1,
        digit(d)[0] as int == 0x30 + d,
{
    reveal_strlit("0");
    reveal_strlit("1");
    reveal_strlit("2");
    reveal_strlit("3");
    reveal_strlit("4");
    reveal_strlit("5");
    reveal_strlit("6");
    reveal_strlit("7");
    reveal_strlit("8");
    reveal_strlit("9");
}

proof fn lemma_decimal_nat(n: nat)
    ensures
        decimal_nat(n).len() > 0,
        number_written(decimal_nat(n)) == Some(n),
        n > 0 ==> decimal_nat(n)[0] as int != 0x30,
        0x30 <= decimal_nat(n)[0] as int <= 0x39,
    decreases n,
{
    if n < 10 {
        lemma_digit(n);
        let s = digit(n);
        assert(s.drop_last().len() == 0);
        assert(number_written(s.drop_last()) == Some(0nat));
        assert(s.last() == s[0]);
    } else {
        lemma_decimal_nat(n / 10);
        lemma_digit(n % 10);
        let s = decimal_nat(n / 10) + digit(n % 10);
        assert(s.drop_last() =~= decimal_nat(n / 10));
        assert(s.last() == digit(n % 10)[0]);
        assert(s[0] == decimal_nat(n / 10)[0]);
    }
}

/// A number is written in decimal digits that read back as that number, without a zero in
/// front, and with a minus sign where it is negative.
pub proof fn law_a_number_is_read_back(n: int)
    ensures
        n >= 0 ==> number_written(decimal(n)) == Some(n as nat),
        n > 0 ==> decimal(n)[0] as int != 0x30,
        n < 0 ==> decimal(n)[0] as int == 0x2d && number_written(decimal(n).skip(1)) == Some(
            (-n) as nat,
        ),
{
    if n >= 0 {
        lemma_decimal_nat(n as nat);
    } else {
        reveal_strlit("-");
        lemma_decimal_nat((-n) as nat);
        let s = decimal(n);
        assert(s[0] == "-"@[0]);
        assert(s.skip(1) =~= decimal_nat((-n) as nat));
    }
}

/// All of these characters, from the one place up to the other, are white space.
spec fn white_between(s: Seq<char>, i: int, j: int) -> bool {
    forall|k: int| i <= k < j ==> is_white_space(#[trigger] s[k])
}

proof fn lemma_trimmed(s: Seq<char>) -> (r: (int, int))
    ensures
        0 <= r.0 <= r.1 <= s.len(),
        trimmed(s) == s.subrange(r.0, r.1),
        white_between(s, 0, r.0),
        white_between(s, r.1, s.len() as int),
        r.0 < r.1 ==> !is_white_space(s[r.0]) && !is_white_space(s[r.1 - 1]),
    decreases s.len(),
{
    let n = s.len() as int;
    if n > 0 && is_white_space(s[0]) {
        let t = s.skip(1);
        let (i, j) = lemma_trimmed(t);
        assert(s.subrange(i + 1, j + 1) =~= t.subrange(i, j));
        assert forall|k: int| 0 <= k < i + 1 implies is_white_space(#[trigger] s[k]) by {
            if k > 0 {
                assert(t[k - 1] == s[k]);
            }
        }
        assert forall|k: int| j + 1 <= k < n implies is_white_space(#[trigger] s[k]) by {
            assert(t[k - 1] == s[k]);
        }
        (i + 1, j + 1)
    } else if n > 0 && is_white_space(s.last()) {
        let t = s.drop_last();
        let (i, j) = lemma_trimmed(t);
        assert(s.subrange(i, j) =~= t.subrange(i, j));
        assert forall|k: int| 0 <= k < i implies is_white_space(#[trigger] s[k]) by {
            assert(t[k] == s[k]);
        }
        assert forall|k: int| j <= k < n implies is_white_space(#[trigger] s[k]) by {
            if k < n - 1 {
                assert(t[k] == s[k]);
            }
        }
        (i, j)
    } else {
        assert(s.subrange(0, n) =~= s);
        (0, n)
    }
}

/// A text without the white space around it is what is left between white space, and has
/// none at either end; a text of white space alone leaves nothing.
pub proof fn law_trimming_leaves_what_is_not_white(s: Seq<char>)
    ensures
        trimmed(s).len() > 0 ==> !is_white_space(trimmed(s)[0]) && !is_white_space(
            trimmed(s).last(),
        ),
        blank(s) <==> trimmed(s).len() == 0,
        exists|i: int|
            0 <= i <= i + trimmed(s).len() <= s.len() && trimmed(s) == #[trigger] s.subrange(
                i,
                i + trimmed(s).len(),
            ) && (forall|k: int| 0 <= k < i ==> is_white_space(#[trigger] s[k])) && forall|k: int|
                i + trimmed(s).len() <= k < s.len() ==> is_white_space(#[trigger] s[k]),
{
    let (i, j) = lemma_trimmed(s);
    lemma_blank_trims_to_nothing(s);
    assert(trimmed(s).len() == j - i);
    assert(s.subrange(i, i + trimmed(s).len()) == trimmed(s));
}

/// White space is the blank, the tab, the line's end and their kin, and no letter, digit
/// or mark of the notes.
pub proof fn law_white_space_is_no_letter(c: char)
    ensures
        c == ' ' || c == '\t' || c == '\n' || c == '\r' ==> is_white_space(c),
        0x21 <= c as int <= 0x7e ==> !is_white_space(c),
        c as int == 0x85 || c as int == 0xa0 || c as int == 0x3000 ==> is_white_space(c),
{
}

/// What stands before a mark is the text up to where the mark first stands, and all of it
/// where it does not stand at all. The reason of a note is that, without white space
/// around it.
pub proof fn law_a_reason_stands_before_the_colon(s: Seq<char>, c: char, k: int)
    requires
        0 <= k <= s.len(),
        k < s.len() ==> s[k] == c,
        forall|j: int| 0 <= j < k ==> s[j] != c,
    ensures
        before_char(s, c) == s.take(k),
        c == ':' ==> reason_prefix(s) == trimmed(s.take(k)),
    decreases k,
{
    if k == 0 {
        assert(s.take(0) =~= Seq::<char>::empty());
    } else {
        assert forall|j: int| 0 <= j < k - 1 implies s.skip(1)[j] != c by {
            assert(s[j + 1] != c);
        }
        law_a_reason_stands_before_the_colon(s.skip(1), c, k - 1);
        assert(s.take(k) =~= seq![s[0]] + s.skip(1).take(k - 1));
    }
}

/// Bytes are ordered by the first that differs, and a beginning comes before what it
/// begins.
pub proof fn law_bytes_are_ordered_by_the_first_difference(a: Seq<u8>, b: Seq<u8>, k: int)
    requires
        0 <= k <= a.len(),
        k <= b.len(),
        forall|i: int| 0 <= i < k ==> a[i] == b[i],
        k < a.len() && k < b.len() ==> a[k] != b[k],
    ensures
        k < a.len() && k < b.len() ==> (bytes_le(a, b) <==> a[k] < b[k]),
        k == a.len() ==> bytes_le(a, b),
        k == b.len() && k < a.len() ==> !bytes_le(a, b),
    decreases k,
{
    if k > 0 {
        let x = a.skip(1);
        let y = b.skip(1);
        assert forall|i: int| 0 <= i < k - 1 implies x[i] == y[i] by {
            assert(a[i + 1] == b[i + 1]);
        }
        law_bytes_are_ordered_by_the_first_difference(x, y, k - 1);
    }
}

/// A count and a sum over a table grow with each row by that row's own share.
pub proof fn law_counts_and_sums_grow_row_by_row<T>(
    rows: Seq<T>,
    x: T,
    p: spec_fn(T) -> bool,
    f: spec_fn(T) -> int,
)
    ensures
        count_rows(Seq::<T>::empty(), p) == 0,
        sum_rows(Seq::<T>::empty(), p, f) == 0,
        count_rows(rows.push(x), p) == count_rows(rows, p) + (if p(x) {
            1nat
        } else {
            0
        }),
        sum_rows(rows.push(x), p, f) == sum_rows(rows, p, f) + (if p(x) {
            f(x)
        } else {
            0
        }),
{
    assert(rows.push(x).drop_last() =~= rows);
}

/// The whole change of a plan is the sum of its outputs, each counted once.
pub proof fn law_the_whole_change_is_every_output(amounts: Seq<u64>, x: u64)
    ensures
        sum_to(Seq::<u64>::empty(), 0) == 0,
        sum_to(amounts.push(x), amounts.len() as int + 1) == sum_to(amounts, amounts.len() as int)
            + x,
{
    lemma_sum_to(amounts, x, amounts.len() as int);
}

proof fn lemma_sum_to(amounts: Seq<u64>, x: u64, k: int)
    requires
        k <= amounts.len(),
    ensures
        sum_to(amounts.push(x), k) == sum_to(amounts, k),
    decreases k,
{
    if k > 0 {
        lemma_sum_to(amounts, x, k - 1);
    }
}

/// A deposit of another amount is noted with both amounts, and an approval with how many
/// there are of how many.
pub proof fn law_notes_tell_their_figures(expected: i64, observed: u64, n: int, required: u32)
    ensures
        mismatch_note(expected, observed) == "deposit_amount_mismatch: expected "@ + decimal(
            expected as int,
        ) + " observed "@ + decimal(observed as int),
        approval_reason(n, required, false) == "approved ("@ + decimal(n) + "/"@ + decimal(
            required as int,
        ) + ")"@,
        approval_reason(n, required, true) == "approval threshold reached ("@ + decimal(n) + "/"@
            + decimal(required as int) + ")"@,
{
}

/// What happened on Robinhood is told with each of its four figures.
pub proof fn law_activity_tells_its_figures(a: RobinhoodActivity)
    ensures
        a.spec_text() == decimal(a.deposit_observations as int) + " deposit observation(s), "@
            + decimal(a.transactions as int) + " outbound operation(s), "@ + decimal(
            a.requests as int,
        ) + " bridge request(s), "@ + decimal(a.rebalances as int) + " rebalance request(s)"@,
{
}

} // verus!
