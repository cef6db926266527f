//! The labels that generated code declares, and why no two of them clash.

use vstd::prelude::*;
use crate::text::{decimal, is_digit, lemma_decimal_digits, lemma_decimal_injective};

verus! {

/// The name of the branch target taken when a comparison holds.
pub open spec fn cond_label(function: Seq<char>, number: nat) -> Seq<char> {
    "__COND_"@ + function + "$"@ + decimal(number)
}

/// The name of the point where both branches of a comparison meet again.
pub open spec fn cond_end_label(function: Seq<char>, number: nat) -> Seq<char> {
    "__COND_END_"@ + function + "$"@ + decimal(number)
}

/// The name of the point to which a call returns.
pub open spec fn return_label(function: Seq<char>, number: nat) -> Seq<char> {
    function + "$ret."@ + decimal(number)
}

/// The name of a `label` target inside `function`.
pub open spec fn scoped_label(function: Seq<char>, label: Seq<char>) -> Seq<char> {
    function + "$"@ + label
}

/// Two texts that end in a separator followed by a tail without that
/// separator are equal only if their tails and what stands before the
/// separator are.
pub proof fn lemma_split_at_last(a: Seq<char>, x: Seq<char>, b: Seq<char>, y: Seq<char>, separator: char)
    requires
        !x.contains(separator),
        !y.contains(separator),
        a + seq![separator] + x == b + seq![separator] + y,
    ensures
        a == b,
        x == y,
{
    let left = a + seq![separator] + x;
    let right = b + seq![separator] + y;
    assert(left.len() == a.len() + 1 + x.len());
    assert(right.len() == b.len() + 1 + y.len());
    if a.len() < b.len() {
        assert(right[b.len() as int] == separator);
        assert(left[b.len() as int] == x[b.len() - a.len() - 1]);
        assert(x.contains(separator));
    } else if b.len() < a.len() {
        assert(left[a.len() as int] == separator);
        assert(right[a.len() as int] == y[a.len() - b.len() - 1]);
        assert(y.contains(separator));
    }
    assert(a =~= left.subrange(0, a.len() as int));
    assert(b =~= right.subrange(0, b.len() as int));
    assert(x =~= left.subrange(a.len() as int + 1, left.len() as int));
    assert(y =~= right.subrange(b.len() as int + 1, right.len() as int));
}

/// A decimal numeral holds no character that is no digit.
proof fn lemma_decimal_lacks(n: nat, c: char)
    requires
        !is_digit(c),
    ensures
        !decimal(n).contains(c),
{
    lemma_decimal_digits(n);
    if decimal(n).contains(c) {
        let i = choose|i: int| 0 <= i < decimal(n).len() && decimal(n)[i] == c;
        assert(is_digit(decimal(n)[i]));
    }
}

/// Two texts that end in `$` and a decimal numeral are equal only if the
/// numbers are, and what stands before the `$`.
proof fn lemma_numbered_equal(a: Seq<char>, n: nat, b: Seq<char>, m: nat)
    requires
        a + "$"@ + decimal(n) == b + "$"@ + decimal(m),
    ensures
        a == b,
        n == m,
{
    reveal_strlit("$");
    assert("$"@ =~= seq!['$']);
    lemma_decimal_lacks(n, '$');
    lemma_decimal_lacks(m, '$');
    lemma_split_at_last(a, decimal(n), b, decimal(m), '$');
    lemma_decimal_injective(n, m);
}

/// The two labels of a comparison differ from each other, and from both
/// labels of any comparison compiled under another number, whatever the
/// functions are in which the two stand: also when it is the same function.
pub proof fn lemma_comparison_labels_distinct(
    function: Seq<char>,
    number: nat,
    other_function: Seq<char>,
    other_number: nat,
)
    ensures
        cond_label(function, number) != cond_end_label(function, number),
        number != other_number ==> {
            &&& cond_label(function, number) != cond_label(other_function, other_number)
            &&& cond_label(function, number) != cond_end_label(other_function, other_number)
            &&& cond_end_label(function, number) != cond_label(other_function, other_number)
            &&& cond_end_label(function, number) != cond_end_label(other_function, other_number)
        },
{
    reveal_strlit("__COND_");
    reveal_strlit("__COND_END_");
    if cond_label(function, number) == cond_end_label(function, number) {
        lemma_numbered_equal("__COND_"@ + function, number, "__COND_END_"@ + function, number);
        assert(("__COND_"@ + function).len() != ("__COND_END_"@ + function).len());
    }
    if number != other_number {
        if cond_label(function, number) == cond_label(other_function, other_number) {
            lemma_numbered_equal(
                "__COND_"@ + function,
                number,
                "__COND_"@ + other_function,
                other_number,
            );
        }
        if cond_label(function, number) == cond_end_label(other_function, other_number) {
            lemma_numbered_equal(
                "__COND_"@ + function,
                number,
                "__COND_END_"@ + other_function,
                other_number,
            );
        }
        if cond_end_label(function, number) == cond_label(other_function, other_number) {
            lemma_numbered_equal(
                "__COND_END_"@ + function,
                number,
                "__COND_"@ + other_function,
                other_number,
            );
        }
        if cond_end_label(function, number) == cond_end_label(other_function, other_number) {
            lemma_numbered_equal(
                "__COND_END_"@ + function,
                number,
                "__COND_END_"@ + other_function,
                other_number,
            );
        }
    }
}

/// The return labels of two calls compiled under different numbers differ,
/// whatever the functions are in which the calls stand.
pub proof fn lemma_return_labels_distinct(
    function: Seq<char>,
    number: nat,
    other_function: Seq<char>,
    other_number: nat,
)
    requires
        number != other_number,
    ensures
        return_label(function, number) != return_label(other_function, other_number),
{
    reveal_strlit("$ret.");
    let tail = seq!['r', 'e', 't', '.'] + decimal(number);
    let other_tail = seq!['r', 'e', 't', '.'] + decimal(other_number);
    assert(return_label(function, number) =~= function + seq!['$'] + tail);
    assert(return_label(other_function, other_number) =~= other_function + seq!['$'] + other_tail);
    lemma_decimal_lacks(number, '$');
    lemma_decimal_lacks(other_number, '$');
    if tail.contains('$') {
        let i = choose|i: int| 0 <= i < tail.len() && tail[i] == '$';
        if i >= 4 {
            assert(decimal(number)[i - 4] == '$');
            assert(decimal(number).contains('$'));
        }
    }
    if other_tail.contains('$') {
        let i = choose|i: int| 0 <= i < other_tail.len() && other_tail[i] == '$';
        if i >= 4 {
            assert(decimal(other_number)[i - 4] == '$');
            assert(decimal(other_number).contains('$'));
        }
    }
    if return_label(function, number) == return_label(other_function, other_number) {
        lemma_split_at_last(function, tail, other_function, other_tail, '$');
        assert(decimal(number) =~= tail.subrange(4, tail.len() as int));
        assert(decimal(other_number) =~= other_tail.subrange(4, other_tail.len() as int));
        lemma_decimal_injective(number, other_number);
    }
}

/// The symbol of a `static` cell.
pub open spec fn static_symbol(file_name: Seq<char>, offset: u16) -> Seq<char> {
    file_name + "."@ + decimal(offset as nat)
}

/// Two `static` cells have the same symbol only if they are the same cell
/// of the same unit.
pub proof fn lemma_static_symbols_distinct(
    file_name: Seq<char>,
    offset: u16,
    other_file_name: Seq<char>,
    other_offset: u16,
)
    requires
        static_symbol(file_name, offset) == static_symbol(other_file_name, other_offset),
    ensures
        file_name == other_file_name,
        offset == other_offset,
{
    reveal_strlit(".");
    assert("."@ =~= seq!['.']);
    lemma_decimal_lacks(offset as nat, '.');
    lemma_decimal_lacks(other_offset as nat, '.');
    lemma_split_at_last(
        file_name,
        decimal(offset as nat),
        other_file_name,
        decimal(other_offset as nat),
        '.',
    );
    lemma_decimal_injective(offset as nat, other_offset as nat);
}

/// One label in two functions has two names.
pub proof fn lemma_scoped_labels_distinct(
    function: Seq<char>,
    other_function: Seq<char>,
    label: Seq<char>,
)
    requires
        scoped_label(function, label) == scoped_label(other_function, label),
    ensures
        function == other_function,
{
    let name = scoped_label(function, label);
    let other_name = scoped_label(other_function, label);
    assert(name.len() == function.len() + "$"@.len() + label.len());
    assert(other_name.len() == other_function.len() + "$"@.len() + label.len());
    assert(function =~= name.subrange(0, function.len() as int));
    assert(other_function =~= other_name.subrange(0, other_function.len() as int));
}

} // verus!
