//! The mathematics of loop markers: nesting depth, balance, and which marker pairs with which.
//!
//! Everything here is specification and proof. A program is a sequence of bytes; positions are
//! counted from zero.

use vstd::prelude::*;

verus! {

/// The byte that opens a loop, `[`.
pub const LOOP_OPEN: u8 = 0x5B;

/// The byte that closes a loop, `]`.
pub const LOOP_CLOSE: u8 = 0x5D;

/// A byte is a loop marker when it opens or closes a loop.
pub open spec fn is_loop_marker(byte: u8) -> bool {
    byte == LOOP_OPEN || byte == LOOP_CLOSE
}

/// How a single byte changes the nesting depth.
pub open spec fn depth_change(byte: u8) -> int {
    if byte == LOOP_OPEN {
        1
    } else if byte == LOOP_CLOSE {
        -1
    } else {
        0
    }
}

/// The nesting depth after the first `n` bytes: openers seen minus closers seen.
pub open spec fn depth(program: Seq<u8>, n: int) -> int
    decreases n,
{
    if n <= 0 {
        0
    } else {
        depth(program, n - 1) + depth_change(program[n - 1])
    }
}

/// No prefix of length at most `n` closes more loops than it opened.
pub open spec fn never_negative(program: Seq<u8>, n: int) -> bool {
    forall|k: int| 0 <= k <= n ==> #[trigger] depth(program, k) >= 0
}

/// Every loop that is opened is closed, and nothing is closed that was not opened.
pub open spec fn balanced(program: Seq<u8>) -> bool {
    &&& never_negative(program, program.len() as int)
    &&& depth(program, program.len() as int) == 0
}

/// The opener at `open` and the closer at `close` delimit one loop: the depth returns to its
/// value before `open` for the first time right after `close`.
pub open spec fn is_loop(program: Seq<u8>, open: int, close: int) -> bool {
    &&& 0 <= open < close < program.len()
    &&& program[open] == LOOP_OPEN
    &&& program[close] == LOOP_CLOSE
    &&& depth(program, close + 1) == depth(program, open)
    &&& forall|k: int| open < k <= close ==> #[trigger] depth(program, k) > depth(program, open)
}

/// The markers at `a` and `b` belong to the same loop, in either order.
pub open spec fn are_partners(program: Seq<u8>, a: int, b: int) -> bool {
    is_loop(program, a, b) || is_loop(program, b, a)
}

/// The position of the marker that pairs with the one at `position`.
pub open spec fn partner(program: Seq<u8>, position: int) -> int {
    choose|other: int| are_partners(program, position, other)
}

/// The closer at `position` has no opener: it is the first place where the depth would drop
/// below zero.
pub open spec fn is_stray_close(program: Seq<u8>, position: int) -> bool {
    &&& 0 <= position < program.len()
    &&& program[position] == LOOP_CLOSE
    &&& depth(program, position) == 0
    &&& never_negative(program, position)
}

/// The opener at `position` is the outermost one that is never closed: the depth is zero
/// before it and stays positive from there to the end of the program.
pub open spec fn is_dangling_open(program: Seq<u8>, position: int) -> bool {
    &&& 0 <= position < program.len()
    &&& program[position] == LOOP_OPEN
    &&& depth(program, position) == 0
    &&& never_negative(program, program.len() as int)
    &&& forall|k: int| position < k <= program.len() ==> #[trigger] depth(program, k) > 0
}

/// The position that is reported for a program that is not balanced.
pub open spec fn is_first_unmatched(program: Seq<u8>, position: int) -> bool {
    is_stray_close(program, position) || is_dangling_open(program, position)
}

/// `table` is the jump table of `program`: it is defined exactly at the loop markers, and sends
/// each marker to its partner.
pub open spec fn is_jump_table(program: Seq<u8>, table: Map<usize, usize>) -> bool {
    &&& forall|i: usize| #[trigger]
        table.contains_key(i) <==> (i < program.len() && is_loop_marker(program[i as int]))
    &&& forall|i: usize| #[trigger]
        table.contains_key(i) ==> are_partners(program, i as int, table[i] as int)
}

/// A marker has at most one partner.
pub proof fn lemma_partner_unique(program: Seq<u8>, position: int, a: int, b: int)
    requires
        are_partners(program, position, a),
        are_partners(program, position, b),
    ensures
        a == b,
{
    if is_loop(program, position, a) {
        assert(is_loop(program, position, b));
        if a < b {
            assert(depth(program, a + 1) > depth(program, position));
        } else if b < a {
            assert(depth(program, b + 1) > depth(program, position));
        }
    } else {
        assert(is_loop(program, a, position));
        assert(is_loop(program, b, position));
        if a < b {
            assert(depth(program, b) > depth(program, a));
        } else if b < a {
            assert(depth(program, a) > depth(program, b));
        }
    }
}

/// Whoever is a partner of a marker is the partner of that marker.
pub proof fn lemma_partner_is(program: Seq<u8>, position: int, other: int)
    requires
        are_partners(program, position, other),
    ensures
        partner(program, position) == other,
        partner(program, other) == position,
{
    lemma_partner_unique(program, position, partner(program, position), other);
    assert(are_partners(program, other, position));
    lemma_partner_unique(program, other, partner(program, other), position);
}

/// A program has at most one jump table.
pub proof fn lemma_jump_table_unique(
    program: Seq<u8>,
    first: Map<usize, usize>,
    second: Map<usize, usize>,
)
    requires
        is_jump_table(program, first),
        is_jump_table(program, second),
    ensures
        first == second,
{
    assert forall|i: usize| #[trigger] first.dom().contains(i) <==> second.dom().contains(i) by {
        assert(first.contains_key(i) <==> (i < program.len() && is_loop_marker(program[i as int])));
        assert(second.contains_key(i) <==> (i < program.len() && is_loop_marker(program[i as int])));
    }
    assert forall|i: usize| #[trigger] first.dom().contains(i) implies first[i] == second[i] by {
        assert(first.contains_key(i) && second.contains_key(i));
        lemma_partner_unique(program, i as int, first[i] as int, second[i] as int);
    }
    assert(first =~= second);
}

/// Jumping twice comes back: the partner of the partner of a marker is that marker. The table
/// agrees with `partner` at every marker.
pub proof fn lemma_jump_table_involution(program: Seq<u8>, table: Map<usize, usize>)
    requires
        is_jump_table(program, table),
    ensures
        forall|i: usize| #[trigger]
            table.contains_key(i) ==> {
                &&& table.contains_key(table[i])
                &&& table[table[i]] == i
                &&& table[i] as int == partner(program, i as int)
                &&& table[i] != i
            },
{
    assert forall|i: usize| #[trigger] table.contains_key(i) implies {
        &&& table.contains_key(table[i])
        &&& table[table[i]] == i
        &&& table[i] as int == partner(program, i as int)
        &&& table[i] != i
    } by {
        let j = table[i];
        assert(are_partners(program, i as int, j as int));
        assert(table.contains_key(j));
        assert(are_partners(program, j as int, table[j] as int));
        lemma_partner_unique(program, j as int, table[j] as int, i as int);
        lemma_partner_is(program, i as int, j as int);
    }
}

/// In a balanced program every opener has a closer further right.
proof fn lemma_find_close(program: Seq<u8>, open: int, k: int)
    requires
        balanced(program),
        0 <= open < k <= program.len(),
        program[open] == LOOP_OPEN,
        forall|j: int| open < j <= k ==> #[trigger] depth(program, j) > depth(program, open),
    ensures
        exists|close: int| is_loop(program, open, close),
    decreases program.len() - k,
{
    assert(depth(program, open) >= 0);
    assert(k < program.len());
    assert(depth(program, k + 1) == depth(program, k) + depth_change(program[k]));
    if depth(program, k + 1) > depth(program, open) {
        lemma_find_close(program, open, k + 1);
    } else {
        assert(is_loop(program, open, k));
    }
}

/// In a balanced program every closer has an opener further left.
proof fn lemma_find_open(program: Seq<u8>, close: int, k: int)
    requires
        balanced(program),
        0 <= k <= close < program.len(),
        program[close] == LOOP_CLOSE,
        forall|j: int| k <= j <= close ==> #[trigger] depth(program, j) > depth(program, close + 1),
    ensures
        exists|open: int| is_loop(program, open, close),
    decreases k,
{
    assert(depth(program, close + 1) >= 0);
    assert(depth(program, 0) == 0);
    assert(k > 0);
    assert(depth(program, k) == depth(program, k - 1) + depth_change(program[k - 1]));
    if depth(program, k - 1) > depth(program, close + 1) {
        lemma_find_open(program, close, k - 1);
    } else {
        assert(is_loop(program, k - 1, close));
    }
}

/// In a balanced program every loop marker has its partner.
pub proof fn lemma_balanced_has_partners(program: Seq<u8>, position: int)
    requires
        balanced(program),
        0 <= position < program.len(),
        is_loop_marker(program[position]),
    ensures
        are_partners(program, position, partner(program, position)),
        0 <= partner(program, position) < program.len(),
{
    assert(depth(program, position + 1) == depth(program, position) + depth_change(
        program[position],
    ));
    if program[position] == LOOP_OPEN {
        lemma_find_close(program, position, position + 1);
        let close = choose|close: int| is_loop(program, position, close);
        assert(are_partners(program, position, close));
    } else {
        lemma_find_open(program, position, position);
        let open = choose|open: int| is_loop(program, open, position);
        assert(are_partners(program, position, open));
    }
}

/// In a balanced program, jumping twice comes back: the partner of the partner of a loop
/// marker is that marker.
pub proof fn lemma_partner_involution(program: Seq<u8>, position: int)
    requires
        balanced(program),
        0 <= position < program.len(),
        is_loop_marker(program[position]),
    ensures
        0 <= partner(program, position) < program.len(),
        is_loop_marker(program[partner(program, position)]),
        partner(program, position) != position,
        partner(program, partner(program, position)) == position,
{
    lemma_balanced_has_partners(program, position);
    lemma_partner_is(program, position, partner(program, position));
}

/// A program that is not balanced has exactly one position to report.
pub proof fn lemma_first_unmatched_unique(program: Seq<u8>, a: int, b: int)
    requires
        is_first_unmatched(program, a),
        is_first_unmatched(program, b),
    ensures
        a == b,
        !balanced(program),
{
    lemma_unmatched_not_balanced(program, a);
    if is_stray_close(program, a) && is_stray_close(program, b) {
        if a < b {
            assert(depth(program, a + 1) >= 0);
        } else if b < a {
            assert(depth(program, b + 1) >= 0);
        }
    } else if is_dangling_open(program, a) && is_dangling_open(program, b) {
        if a < b {
            assert(depth(program, b) > 0);
        } else if b < a {
            assert(depth(program, a) > 0);
        }
    } else if is_stray_close(program, a) {
        assert(depth(program, a + 1) >= 0);
    } else {
        assert(depth(program, b + 1) >= 0);
    }
}

/// A program with something to report is not balanced.
pub proof fn lemma_unmatched_not_balanced(program: Seq<u8>, position: int)
    requires
        is_first_unmatched(program, position),
    ensures
        !balanced(program),
{
    if is_stray_close(program, position) {
        assert(depth(program, position + 1) == -1);
    } else {
        assert(depth(program, program.len() as int) > 0);
    }
}

} // verus!
