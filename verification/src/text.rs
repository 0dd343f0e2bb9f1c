//! Text primitives: comparison, search, decimal rendering, and ordered lists of
//! names. Specifications speak of `Seq<char>`.
use vstd::prelude::*;

verus! {

/// The views of a list of strings.
pub open spec fn texts(v: Seq<String>) -> Seq<Seq<char>> {
    v.map_values(|s: String| s@)
}

/// The character of a decimal digit.
pub open spec fn digit_char(d: nat) -> char {
    if d == 0 {
        '0'
    } else if d == 1 {
        '1'
    } else if d == 2 {
        '2'
    } else if d == 3 {
        '3'
    } else if d == 4 {
        '4'
    } else if d == 5 {
        '5'
    } else if d == 6 {
        '6'
    } else if d == 7 {
        '7'
    } else if d == 8 {
        '8'
    } else {
        '9'
    }
}

/// Decimal notation of a natural number, without leading zeros.
pub open spec fn dec(n: nat) -> Seq<char>
    decreases n,
{
    if n < 10 {
        seq![digit_char(n)]
    } else {
        dec(n / 10).push(digit_char(n % 10))
    }
}

/// Decimal notation of an integer.
pub open spec fn dec_int(n: int) -> Seq<char> {
    if n < 0 {
        "-"@ + dec((-n) as nat)
    } else {
        dec(n as nat)
    }
}

/// Lexicographic order on code points, which is also the order of the UTF-8 bytes.
pub open spec fn text_lt(a: Seq<char>, b: Seq<char>) -> bool
    decreases a.len(),
{
    if b.len() == 0 {
        false
    } else if a.len() == 0 {
        true
    } else if a[0] != b[0] {
        a[0] < b[0]
    } else {
        text_lt(a.drop_first(), b.drop_first())
    }
}

/// `s` begins with `prefix`.
pub open spec fn has_prefix(s: Seq<char>, prefix: Seq<char>) -> bool {
    s.len() >= prefix.len() && s.subrange(0, prefix.len() as int) == prefix
}

/// `s` ends with `suffix`.
pub open spec fn has_suffix(s: Seq<char>, suffix: Seq<char>) -> bool {
    s.len() >= suffix.len() && s.subrange(s.len() - suffix.len(), s.len() as int) == suffix
}

/// `s` without its first `n` characters.
pub open spec fn tail(s: Seq<char>, n: nat) -> Seq<char> {
    s.subrange(n as int, s.len() as int)
}

/// `needle` starts at position `at` of `s`.
pub open spec fn occurs_at(s: Seq<char>, needle: Seq<char>, at: int) -> bool {
    0 <= at && at + needle.len() <= s.len() && s.subrange(at, at + needle.len()) == needle
}

/// `needle` occurs somewhere in `s`.
pub open spec fn occurs(s: Seq<char>, needle: Seq<char>) -> bool {
    exists|at: int| occurs_at(s, needle, at)
}

/// Whether two texts are the same.
pub fn text_eq(a: &str, b: &str) -> (r: bool)
    ensures
        r == (a@ == b@),
{
    a.to_owned() == b.to_owned()
}

fn digit_text(d: u64) -> (r: &'static str)
    requires
        d < 10,
    ensures
        r@ == seq![digit_char(d as nat)],
{
    proof {
        reveal_strlit("0");
        reveal_strlit("1");
        reveal_strlit("2");
        reveal_strlit("3");
        reveal_strlit("4");
        reveal_strlit("5");
        reveal_strlit("6");
        reveal_strlit("7");
        reveal_strlit("8");
        reveal_strlit("9");
    }
    if d == 0 {
        "0"
    } else if d == 1 {
        "1"
    } else if d == 2 {
        "2"
    } else if d == 3 {
        "3"
    } else if d == 4 {
        "4"
    } else if d == 5 {
        "5"
    } else if d == 6 {
        "6"
    } else if d == 7 {
        "7"
    } else if d == 8 {
        "8"
    } else {
        "9"
    }
}

/// Render an unsigned integer in decimal.
pub fn dec_text(n: u64) -> (r: String)
    ensures
        r@ == dec(n as nat),
    decreases n,
{
    if n < 10 {
        let r = digit_text(n).to_owned();
        assert(r@ =~= dec(n as nat));
        r
    } else {
        let r = dec_text(n / 10).concat(digit_text(n % 10));
        assert(r@ =~= dec(n as nat));
        r
    }
}

/// Render a size in decimal.
pub fn size_text(n: usize) -> (r: String)
    ensures
        r@ == dec(n as nat),
{
    dec_text(n as u64)
}

/// Render a signed integer in decimal.
pub fn int_text(n: i64) -> (r: String)
    ensures
        r@ == dec_int(n as int),
{
    if n < 0 {
        let magnitude: u64 = (-(n as i128)) as u64;
        "-".to_owned().concat(&dec_text(magnitude))
    } else {
        dec_text(n as u64)
    }
}

/// Whether `a` comes before `b`.
pub fn text_less(a: &str, b: &str) -> (r: bool)
    ensures
        r == text_lt(a@, b@),
{
    let la: usize = a.unicode_len();
    let lb: usize = b.unicode_len();
    let mut i: usize = 0;
    assert(a@.subrange(0, a@.len() as int) =~= a@);
    assert(b@.subrange(0, b@.len() as int) =~= b@);
    while i < la && i < lb
        invariant
            la == a@.len(),
            lb == b@.len(),
            i <= la,
            i <= lb,
            text_lt(a@, b@) == text_lt(tail(a@, i as nat), tail(b@, i as nat)),
        decreases la - i,
    {
        let ca = a.get_char(i);
        let cb = b.get_char(i);
        assert(tail(a@, i as nat)[0] == ca);
        assert(tail(b@, i as nat)[0] == cb);
        if ca != cb {
            return ca < cb;
        }
        assert(tail(a@, i as nat).drop_first() =~= tail(a@, (i + 1) as nat));
        assert(tail(b@, i as nat).drop_first() =~= tail(b@, (i + 1) as nat));
        i += 1;
    }
    i < lb
}

/// Whether `s` begins with `prefix`.
pub fn starts_with(s: &str, prefix: &str) -> (r: bool)
    ensures
        r == has_prefix(s@, prefix@),
{
    let n: usize = s.unicode_len();
    let p: usize = prefix.unicode_len();
    if n < p {
        false
    } else {
        text_eq(s.substring_char(0, p), prefix)
    }
}

/// Whether `s` ends with `suffix`.
pub fn ends_with(s: &str, suffix: &str) -> (r: bool)
    ensures
        r == has_suffix(s@, suffix@),
{
    let n: usize = s.unicode_len();
    let p: usize = suffix.unicode_len();
    if n < p {
        false
    } else {
        text_eq(s.substring_char(n - p, n), suffix)
    }
}

/// The rest of `s` behind `prefix`, when `s` begins with it.
pub fn strip_prefix<'a>(s: &'a str, prefix: &str) -> (r: Option<&'a str>)
    ensures
        match r {
            Some(rest) => has_prefix(s@, prefix@) && rest@ == tail(s@, prefix@.len()) && s@
                == prefix@ + rest@,
            None => !has_prefix(s@, prefix@),
        },
{
    let n: usize = s.unicode_len();
    let p: usize = prefix.unicode_len();
    if n < p {
        None
    } else if text_eq(s.substring_char(0, p), prefix) {
        let rest = s.substring_char(p, n);
        assert(s@ =~= prefix@ + rest@);
        Some(rest)
    } else {
        None
    }
}

/// Whether `needle` occurs in `s`.
pub fn contains_text(s: &str, needle: &str) -> (r: bool)
    ensures
        r == occurs(s@, needle@),
{
    let n: usize = s.unicode_len();
    let k: usize = needle.unicode_len();
    if n < k {
        return false;
    }
    let mut at: usize = 0;
    while at < n - k
        invariant
            n == s@.len(),
            k == needle@.len(),
            k <= n,
            at <= n - k,
            forall|i: int| 0 <= i < at ==> !#[trigger] occurs_at(s@, needle@, i),
        decreases n - k - at,
    {
        if text_eq(s.substring_char(at, at + k), needle) {
            assert(occurs_at(s@, needle@, at as int));
            return true;
        }
        assert(!occurs_at(s@, needle@, at as int));
        at += 1;
    }
    if text_eq(s.substring_char(at, n), needle) {
        assert(occurs_at(s@, needle@, at as int));
        return true;
    }
    assert(!occurs_at(s@, needle@, at as int));
    assert forall|i: int| !#[trigger] occurs_at(s@, needle@, i) by {}
    false
}

/// Whether a list of names holds `name`.
pub fn contains_name(names: &Vec<String>, name: &str) -> (r: bool)
    ensures
        r == texts(names@).contains(name@),
{
    let mut i: usize = 0;
    while i < names.len()
        invariant
            i <= names.len(),
            forall|j: int| 0 <= j < i ==> texts(names@)[j] != name@,
        decreases names.len() - i,
    {
        if text_eq(names[i].as_str(), name) {
            assert(texts(names@)[i as int] == name@);
            return true;
        }
        i += 1;
    }
    false
}

/// Names in ascending order, each once.
pub open spec fn ascending(names: Seq<Seq<char>>) -> bool {
    forall|i: int, j: int| 0 <= i < j < names.len() ==> #[trigger] text_lt(names[i], names[j])
}

pub proof fn lemma_text_lt_trans(a: Seq<char>, b: Seq<char>, c: Seq<char>)
    requires
        text_lt(a, b),
        text_lt(b, c),
    ensures
        text_lt(a, c),
    decreases a.len(),
{
    if a.len() > 0 && b.len() > 0 && c.len() > 0 && a[0] == b[0] && b[0] == c[0] {
        lemma_text_lt_trans(a.drop_first(), b.drop_first(), c.drop_first());
    }
}

pub proof fn lemma_text_lt_total(a: Seq<char>, b: Seq<char>)
    ensures
        a == b || text_lt(a, b) || text_lt(b, a),
        !(text_lt(a, b) && text_lt(b, a)),
        a == b ==> !text_lt(a, b),
    decreases a.len(),
{
    if a.len() > 0 && b.len() > 0 && a[0] == b[0] {
        lemma_text_lt_total(a.drop_first(), b.drop_first());
        if a.drop_first() == b.drop_first() {
            assert(a =~= seq![a[0]] + a.drop_first());
            assert(b =~= seq![b[0]] + b.drop_first());
        }
    } else if a.len() == 0 && b.len() == 0 {
        assert(a =~= b);
    }
}

/// The name belongs in front of position `at` and behind everything before it.
spec fn splits(names: Seq<Seq<char>>, name: Seq<char>, at: int) -> bool {
    &&& 0 <= at <= names.len()
    &&& forall|i: int| 0 <= i < at ==> text_lt(#[trigger] names[i], name)
    &&& forall|i: int| at <= i < names.len() ==> text_lt(name, #[trigger] names[i])
}

/// Insert a name into an ascending list, keeping it ascending and each name once.
pub fn insert_name(names: &mut Vec<String>, name: String)
    requires
        ascending(texts(old(names)@)),
    ensures
        ascending(texts(final(names)@)),
        texts(final(names)@).to_set() == texts(old(names)@).to_set().insert(name@),
{
    let ghost before = texts(names@);
    let mut at: usize = 0;
    while at < names.len() && text_less(names[at].as_str(), name.as_str())
        invariant
            at <= names.len(),
            texts(names@) == before,
            forall|i: int| 0 <= i < at ==> text_lt(#[trigger] before[i], name@),
        decreases names.len() - at,
    {
        assert(texts(names@)[at as int] == names@[at as int]@);
        at += 1;
    }
    if at < names.len() && text_eq(names[at].as_str(), name.as_str()) {
        assert(before[at as int] == name@);
        assert(before.contains(name@));
        assert(before.to_set().insert(name@) =~= before.to_set());
        return;
    }
    proof {
        if at < names.len() {
            assert(before[at as int] == names@[at as int]@);
            lemma_text_lt_total(before[at as int], name@);
            assert(text_lt(name@, before[at as int]));
            assert forall|i: int| at <= i < before.len() implies text_lt(
                name@,
                #[trigger] before[i],
            ) by {
                if i > at {
                    lemma_text_lt_trans(name@, before[at as int], before[i]);
                }
            }
        }
        assert(splits(before, name@, at as int));
    }
    let ghost inserted = name@;
    names.insert(at, name);
    proof {
        let after = texts(names@);
        assert(after =~= before.insert(at as int, inserted));
        assert forall|i: int, j: int| 0 <= i < j < after.len() implies #[trigger] text_lt(
            after[i],
            after[j],
        ) by {
            if i < at && j > at {
                assert(text_lt(before[i], before[j - 1]));
            } else if i > at {
                assert(text_lt(before[i - 1], before[j - 1]));
            } else if j < at {
                assert(text_lt(before[i], before[j]));
            } else if i == at {
                assert(text_lt(inserted, before[j - 1]));
            } else {
                assert(text_lt(before[i], inserted));
            }
        }
        assert(after.to_set() =~= before.to_set().insert(inserted)) by {
            assert forall|x: Seq<char>| after.to_set().contains(x) == before.to_set().insert(
                inserted,
            ).contains(x) by {
                if before.contains(x) {
                    let k = choose|k: int| 0 <= k < before.len() && before[k] == x;
                    if k < at {
                        assert(after[k] == x);
                    } else {
                        assert(after[k + 1] == x);
                    }
                }
                if x == inserted {
                    assert(after[at as int] == x);
                }
                if after.contains(x) && x != inserted {
                    let k = choose|k: int| 0 <= k < after.len() && after[k] == x;
                    if k < at {
                        assert(before[k] == x);
                    } else {
                        assert(before[k - 1] == x);
                    }
                }
            }
        }
    }
}

/// Two ascending lists with the same names are the same list.
pub proof fn lemma_ascending_unique(a: Seq<Seq<char>>, b: Seq<Seq<char>>)
    requires
        ascending(a),
        ascending(b),
        a.to_set() == b.to_set(),
    ensures
        a == b,
    decreases a.len(),
{
    if a.len() == 0 {
        if b.len() > 0 {
            assert(b.to_set().contains(b[0]));
        }
        assert(a =~= b);
    } else {
        assert(a.to_set().contains(a[0]));
        assert(b.contains(a[0]));
        assert(b.to_set().contains(b[0]));
        assert(a.contains(b[0]));
        let i = choose|i: int| 0 <= i < b.len() && b[i] == a[0];
        let j = choose|j: int| 0 <= j < a.len() && a[j] == b[0];
        lemma_text_lt_total(a[0], b[0]);
        if i > 0 {
            assert(text_lt(b[0], b[i]));
        }
        if j > 0 {
            assert(text_lt(a[0], a[j]));
        }
        assert(a[0] == b[0]);
        let ta = a.drop_first();
        let tb = b.drop_first();
        assert forall|x: int, y: int| 0 <= x < y < ta.len() implies #[trigger] text_lt(
            ta[x],
            ta[y],
        ) by {
            assert(text_lt(a[x + 1], a[y + 1]));
        }
        assert forall|x: int, y: int| 0 <= x < y < tb.len() implies #[trigger] text_lt(
            tb[x],
            tb[y],
        ) by {
            assert(text_lt(b[x + 1], b[y + 1]));
        }
        assert(ta.to_set() =~= tb.to_set()) by {
            assert forall|x: Seq<char>| ta.to_set().contains(x) == tb.to_set().contains(x) by {
                if ta.contains(x) {
                    let k = choose|k: int| 0 <= k < ta.len() && ta[k] == x;
                    assert(a[k + 1] == x);
                    assert(text_lt(a[0], a[k + 1]));
                    lemma_text_lt_total(a[0], x);
                    assert(a.to_set().contains(x));
                    assert(b.contains(x));
                    let m = choose|m: int| 0 <= m < b.len() && b[m] == x;
                    assert(m > 0);
                    assert(tb[m - 1] == x);
                }
                if tb.contains(x) {
                    let k = choose|k: int| 0 <= k < tb.len() && tb[k] == x;
                    assert(b[k + 1] == x);
                    assert(text_lt(b[0], b[k + 1]));
                    lemma_text_lt_total(b[0], x);
                    assert(b.to_set().contains(x));
                    assert(a.contains(x));
                    let m = choose|m: int| 0 <= m < a.len() && a[m] == x;
                    assert(m > 0);
                    assert(ta[m - 1] == x);
                }
            }
        }
        lemma_ascending_unique(ta, tb);
        assert(a =~= seq![a[0]] + ta);
        assert(b =~= seq![b[0]] + tb);
    }
}

/// The quoted, escaped form of a text.
pub uninterp spec fn debug_form(s: Seq<char>) -> Seq<char>;

/// `format!` with `{:?}` on a string slice: the text in double quotes with its
/// special characters escaped, which depends on the text alone.
#[verifier::external_body]
pub(crate) fn debug_text(s: &str) -> (r: String)
    ensures
        r@ == debug_form(s@),
{
    format!("{:?}", s)
}

/// The quoted form of an optional text: `Some("..")` or `None`.
pub open spec fn debug_option_form(s: Option<Seq<char>>) -> Seq<char> {
    match s {
        Some(text) => "Some("@ + debug_form(text) + ")"@,
        None => "None"@,
    }
}

/// Render an optional text.
pub fn debug_option_text(s: Option<&str>) -> (r: String)
    ensures
        r@ == debug_option_form(
            match s {
                Some(text) => Some(text@),
                None => None,
            },
        ),
{
    match s {
        Some(text) => "Some(".to_owned().concat(&debug_text(text)).concat(")"),
        None => "None".to_owned(),
    }
}

/// Numbers separated by commas.
pub open spec fn joined(values: Seq<usize>) -> Seq<char>
    decreases values.len(),
{
    if values.len() == 0 {
        Seq::empty()
    } else if values.len() == 1 {
        dec(values[0] as nat)
    } else {
        joined(values.drop_last()) + ", "@ + dec(values.last() as nat)
    }
}

/// A list of numbers in square brackets.
pub open spec fn list_form(values: Seq<usize>) -> Seq<char> {
    "["@ + joined(values) + "]"@
}

/// Render a list of numbers in square brackets.
pub fn list_text(values: &[usize]) -> (r: String)
    ensures
        r@ == list_form(values@),
{
    let mut inner = String::new();
    let mut i: usize = 0;
    assert(values@.subrange(0, 0) =~= Seq::<usize>::empty());
    while i < values.len()
        invariant
            i <= values@.len(),
            inner@ == joined(values@.subrange(0, i as int)),
        decreases values@.len() - i,
    {
        proof {
            let next = values@.subrange(0, i + 1);
            assert(next.drop_last() =~= values@.subrange(0, i as int));
            assert(next.last() == values@[i as int]);
        }
        if i > 0 {
            inner.append(", ");
        }
        inner.append(size_text(values[i]).as_str());
        i += 1;
        assert(inner@ =~= joined(values@.subrange(0, i as int)));
    }
    assert(values@.subrange(0, i as int) =~= values@);
    "[".to_owned().concat(&inner).concat("]")
}

/// A truth value as text.
pub open spec fn bool_form(b: bool) -> Seq<char> {
    if b {
        "true"@
    } else {
        "false"@
    }
}

/// Render a truth value.
pub fn bool_text(b: bool) -> (r: &'static str)
    ensures
        r@ == bool_form(b),
{
    if b {
        "true"
    } else {
        "false"
    }
}

/// The lower-case hexadecimal digit of a value below 16.
pub open spec fn hex_char(d: nat) -> char {
    if d == 10 {
        'a'
    } else if d == 11 {
        'b'
    } else if d == 12 {
        'c'
    } else if d == 13 {
        'd'
    } else if d == 14 {
        'e'
    } else if d == 15 {
        'f'
    } else {
        digit_char(d)
    }
}

/// The last `width` hexadecimal digits of a number.
pub open spec fn hex(n: nat, width: nat) -> Seq<char>
    decreases width,
{
    if width == 0 {
        Seq::empty()
    } else {
        hex(n / 16, (width - 1) as nat).push(hex_char(n % 16))
    }
}

fn hex_digit_text(d: u64) -> (r: String)
    requires
        d < 16,
    ensures
        r@ == seq![hex_char(d as nat)],
{
    proof {
        reveal_strlit("a");
        reveal_strlit("b");
        reveal_strlit("c");
        reveal_strlit("d");
        reveal_strlit("e");
        reveal_strlit("f");
    }
    let text = if d == 10 {
        "a"
    } else if d == 11 {
        "b"
    } else if d == 12 {
        "c"
    } else if d == 13 {
        "d"
    } else if d == 14 {
        "e"
    } else if d == 15 {
        "f"
    } else {
        digit_text(d)
    };
    assert(text@ =~= seq![hex_char(d as nat)]);
    text.to_owned()
}

/// The last `width` hexadecimal digits of a number.
pub fn hex_text(n: u64, width: usize) -> (r: String)
    ensures
        r@ == hex(n as nat, width as nat),
    decreases width,
{
    if width == 0 {
        let empty = "".to_owned();
        proof {
            reveal_strlit("");
        }
        assert(empty@ =~= Seq::<char>::empty());
        empty
    } else {
        let front = hex_text(n / 16, width - 1);
        let ghost before = front@;
        let last = hex_digit_text(n % 16);
        let all = front.concat(last.as_str());
        assert(all@ =~= before.push(hex_char(n as nat % 16)));
        all
    }
}

/// Integers with commas between them.
pub open spec fn joined_ints(values: Seq<i32>) -> Seq<char>
    decreases values.len(),
{
    if values.len() == 0 {
        ""@
    } else if values.len() == 1 {
        dec_int(values[0] as int)
    } else {
        joined_ints(values.drop_last()) + ", "@ + dec_int(values.last() as int)
    }
}

/// A list of integers in brackets.
pub open spec fn int_list_form(values: Seq<i32>) -> Seq<char> {
    "["@ + joined_ints(values) + "]"@
}

/// Render a list of integers in brackets.
pub fn int_list_text(values: &[i32]) -> (r: String)
    ensures
        r@ == int_list_form(values@),
{
    let mut list: String = "".to_owned();
    let mut i: usize = 0;
    assert(values@.subrange(0, 0) =~= Seq::<i32>::empty());
    while i < values.len()
        invariant
            i <= values@.len(),
            list@ == joined_ints(values@.subrange(0, i as int)),
        decreases values@.len() - i,
    {
        let ghost next = values@.subrange(0, i + 1);
        assert(next.drop_last() =~= values@.subrange(0, i as int));
        assert(next.last() == values@[i as int]);
        if i == 0 {
            list = int_text(values[i] as i64);
        } else {
            list = list.concat(", ").concat(&int_text(values[i] as i64));
        }
        i += 1;
    }
    assert(values@.subrange(0, i as int) =~= values@);
    "[".to_owned().concat(&list).concat("]")
}

/// A white space character of Unicode.
pub open spec fn is_space(c: char) -> bool {
    let n = c as u32;
    ||| 0x9 <= n <= 0xD
    ||| n == 0x20 || n == 0x85 || n == 0xA0 || n == 0x1680
    ||| 0x2000 <= n <= 0x200A
    ||| n == 0x2028 || n == 0x2029 || n == 0x202F || n == 0x205F || n == 0x3000
}

fn space(c: char) -> (r: bool)
    ensures
        r == is_space(c),
{
    let n: u32 = c as u32;
    (0x9 <= n && n <= 0xD) || n == 0x20 || n == 0x85 || n == 0xA0 || n == 0x1680 || (0x2000 <= n && n
        <= 0x200A) || n == 0x2028 || n == 0x2029 || n == 0x202F || n == 0x205F || n == 0x3000
}

/// `part` is `s` without the white space in front and behind.
pub open spec fn is_trimmed(s: Seq<char>, part: Seq<char>) -> bool {
    &&& part.len() > 0 ==> !is_space(part[0]) && !is_space(part.last())
    &&& exists|from: int, to: int|
        {
            &&& 0 <= from <= to <= s.len()
            &&& part == #[trigger] s.subrange(from, to)
            &&& forall|i: int| 0 <= i < from || to <= i < s.len() ==> is_space(#[trigger] s[i])
        }
}

/// The text without the white space in front and behind.
pub fn trimmed<'a>(s: &'a str) -> (r: &'a str)
    ensures
        is_trimmed(s@, r@),
{
    let n: usize = s.unicode_len();
    let mut from: usize = 0;
    while from < n && space(s.get_char(from))
        invariant
            from <= n,
            n == s@.len(),
            forall|i: int| 0 <= i < from ==> is_space(#[trigger] s@[i]),
        decreases n - from,
    {
        from += 1;
    }
    let mut to: usize = n;
    while from < to && space(s.get_char(to - 1))
        invariant
            from <= to <= n,
            n == s@.len(),
            from < n ==> !is_space(s@[from as int]),
            forall|i: int| to <= i < n ==> is_space(#[trigger] s@[i]),
        decreases to - from,
    {
        to -= 1;
    }
    let part = s.substring_char(from, to);
    assert(part@ == s@.subrange(from as int, to as int));
    part
}

} // verus!
