//! What holds of rendered text: numbers read back, lists join, and names have one order.
use vstd::arithmetic::power::{lemma_pow0, lemma_pow_positive, pow};
use vstd::prelude::*;

use crate::paths::joined_path;
use crate::text::{dec, dec_int, hex, hex_char, joined, joined_ints, list_form, text_lt};

verus! {

/// The number that decimal digits stand for, the last one counting once.
pub open spec fn decimal_value(s: Seq<char>) -> int
    decreases s.len(),
{
    if s.len() == 0 {
        0
    } else {
        decimal_value(s.drop_last()) * 10 + (s.last() as int - '0' as int)
    }
}

/// A decimal digit.
pub open spec fn is_digit(c: char) -> bool {
    '0' <= c <= '9'
}

/// Decimal notation reads back: its digits stand for the number, the first one is a zero only
/// for zero, and so two numbers never look alike.
pub proof fn law_decimal_reads_back(n: nat)
    ensures
        decimal_value(dec(n)) == n,
        dec(n).len() > 0,
        forall|i: int| 0 <= i < dec(n).len() ==> is_digit(#[trigger] dec(n)[i]),
        dec(n)[0] == '0' ==> n == 0,
    decreases n,
{
    if n < 10 {
        assert(dec(n).drop_last() =~= Seq::<char>::empty());
        assert(decimal_value(dec(n).drop_last()) == 0);
    } else {
        law_decimal_reads_back(n / 10);
        assert(dec(n).drop_last() =~= dec(n / 10));
        assert(dec(n)[0] == dec(n / 10)[0]);
    }
}

/// Two numbers with the same decimal notation are the same.
pub proof fn law_decimal_tells_numbers_apart(a: nat, b: nat)
    requires
        dec(a) == dec(b),
    ensures
        a == b,
{
    law_decimal_reads_back(a);
    law_decimal_reads_back(b);
}

/// A negative number is its magnitude behind a minus sign, and nothing else has one.
pub proof fn law_sign_is_the_first_character(n: int)
    ensures
        dec_int(n)[0] == '-' <==> n < 0,
        n < 0 ==> decimal_value(dec_int(n).drop_first()) == -n,
        n >= 0 ==> decimal_value(dec_int(n)) == n,
{
    reveal_strlit("-");
    if n < 0 {
        law_decimal_reads_back((-n) as nat);
        assert(dec_int(n).drop_first() =~= dec((-n) as nat));
    } else {
        law_decimal_reads_back(n as nat);
        assert(is_digit(dec(n as nat)[0]));
    }
}

/// The value of a hexadecimal digit.
pub open spec fn hex_digit_value(c: char) -> int {
    if is_digit(c) {
        c as int - '0' as int
    } else {
        c as int - 'a' as int + 10
    }
}

/// The number that hexadecimal digits stand for.
pub open spec fn hex_value(s: Seq<char>) -> int
    decreases s.len(),
{
    if s.len() == 0 {
        0
    } else {
        hex_value(s.drop_last()) * 16 + hex_digit_value(s.last())
    }
}

/// Hexadecimal notation of a given width reads back the number, as far as the width reaches;
/// its digits are in lower case.
pub proof fn law_hexadecimal_reads_back(n: nat, width: nat)
    ensures
        hex(n, width).len() == width,
        n < pow(16, width) ==> hex_value(hex(n, width)) == n,
        forall|i: int|
            0 <= i < width ==> is_digit(#[trigger] hex(n, width)[i]) || 'a' <= hex(n, width)[i]
                <= 'f',
    decreases width,
{
    if width == 0 {
        lemma_pow0(16);
    } else {
        let w = (width - 1) as nat;
        law_hexadecimal_reads_back(n / 16, w);
        assert(hex(n, width).drop_last() =~= hex(n / 16, w));
        assert(hex_digit_value(hex_char(n % 16)) == n % 16);
        assert(pow(16, width) == 16 * pow(16, w)) by {
            reveal(pow);
        }
        lemma_pow_positive(16, w);
    }
}

/// A list reads as its front, a comma and its back, wherever it is parted.
pub proof fn law_lists_join(a: Seq<usize>, b: Seq<usize>)
    requires
        a.len() > 0,
        b.len() > 0,
    ensures
        joined(a + b) == joined(a) + ", "@ + joined(b),
        joined(seq![a[0]]) == dec(a[0] as nat),
        list_form(a + b) == "["@ + joined(a) + ", "@ + joined(b) + "]"@,
    decreases b.len(),
{
    let all = a + b;
    assert(all.drop_last() =~= a + b.drop_last());
    assert(all.last() == b.last());
    if b.len() == 1 {
        assert(a + b.drop_last() =~= a);
    } else {
        law_lists_join(a, b.drop_last());
        assert(joined(all) =~= joined(a) + ", "@ + (joined(b.drop_last()) + ", "@ + dec(
            b.last() as nat,
        )));
    }
    assert(list_form(all) =~= "["@ + joined(a) + ", "@ + joined(b) + "]"@);
}

/// A list of integers reads as its front, a comma and its back, wherever it is parted.
pub proof fn law_integer_lists_join(a: Seq<i32>, b: Seq<i32>)
    requires
        a.len() > 0,
        b.len() > 0,
    ensures
        joined_ints(a + b) == joined_ints(a) + ", "@ + joined_ints(b),
        joined_ints(seq![a[0]]) == dec_int(a[0] as int),
    decreases b.len(),
{
    let all = a + b;
    assert(all.drop_last() =~= a + b.drop_last());
    assert(all.last() == b.last());
    if b.len() == 1 {
        assert(a + b.drop_last() =~= a);
    } else {
        law_integer_lists_join(a, b.drop_last());
        assert(joined_ints(all) =~= joined_ints(a) + ", "@ + (joined_ints(b.drop_last()) + ", "@
            + dec_int(b.last() as int)));
    }
}

/// Two texts agree on their first `k` characters.
pub open spec fn agree(a: Seq<char>, b: Seq<char>, k: int) -> bool {
    0 <= k <= a.len() && k <= b.len() && forall|i: int| 0 <= i < k ==> a[i] == b[i]
}

/// A name stands before another exactly when it is a proper beginning of it, or has the
/// smaller character where they first differ.
pub proof fn law_names_order_by_the_first_difference(a: Seq<char>, b: Seq<char>, k: int)
    requires
        agree(a, b, k),
        k < a.len() && k < b.len() ==> a[k] != b[k],
    ensures
        text_lt(a, b) <==> if k == b.len() {
            false
        } else {
            k == a.len() || a[k] < b[k]
        },
    decreases k,
{
    if k > 0 {
        let (x, y) = (a.drop_first(), b.drop_first());
        assert(agree(x, y, k - 1)) by {
            assert forall|i: int| 0 <= i < k - 1 implies x[i] == y[i] by {
                assert(a[i + 1] == b[i + 1]);
            }
        }
        assert(a[0] == b[0]);
        law_names_order_by_the_first_difference(x, y, k - 1);
    }
}

/// A relative name goes below its directory, with one slash between them; an absolute one
/// stays as it is.
pub proof fn law_paths_join_with_one_slash(dir: Seq<char>, name: Seq<char>)
    requires
        dir.len() > 0,
        name.len() > 0,
    ensures
        name[0] == '/' ==> joined_path(dir, name) == name,
        name[0] != '/' ==> {
            let all = joined_path(dir, name);
            let at = all.len() - name.len();
            &&& all.subrange(0, dir.len() as int) == dir
            &&& all.subrange(at, all.len() as int) == name
            &&& all[at - 1] == '/'
            &&& at == if dir.last() == '/' {
                dir.len()
            } else {
                dir.len() + 1
            }
        },
{
    reveal_strlit("/");
    let all = joined_path(dir, name);
    if name[0] != '/' {
        let at = all.len() - name.len();
        assert(all.subrange(0, dir.len() as int) =~= dir);
        assert(all.subrange(at, all.len() as int) =~= name);
    }
}

} // verus!
