//! Filling a name into a pooled log line.

use vstd::prelude::*;
use vstd::string::*;

verus! {

/// `text` with every non-overlapping occurrence of `from` (left to right)
/// replaced by `to`; `from` must be non-empty.
pub open spec fn replace_spec(text: Seq<char>, from: Seq<char>, to: Seq<char>) -> Seq<char>
    decreases text.len(),
{
    if from.len() == 0 || text.len() == 0 {
        text
    } else if text.len() >= from.len() && text.subrange(0, from.len() as int) == from {
        to + replace_spec(text.subrange(from.len() as int, text.len() as int), from, to)
    } else {
        seq![text[0]] + replace_spec(text.subrange(1, text.len() as int), from, to)
    }
}

/// Whether `from` occurs in `text` at character `i`.
fn occurs_at(text: &str, n: usize, from: &str, m: usize, i: usize) -> (r: bool)
    requires
        n == text@.len(),
        m == from@.len(),
        i <= n,
    ensures
        r == (i + m <= n && text@.subrange(i as int, i + m) == from@),
{
    if m > n - i {
        return false;
    }
    let mut k: usize = 0;
    while k < m
        invariant
            k <= m,
            i + m <= n,
            n == text@.len(),
            m == from@.len(),
            forall|j: int| 0 <= j < k ==> text@[i + j] == from@[j],
        decreases m - k,
    {
        if text.get_char(i + k) != from.get_char(k) {
            assert(text@.subrange(i as int, i + m)[k as int] != from@[k as int]);
            return false;
        }
        k = k + 1;
    }
    assert(text@.subrange(i as int, i + m) =~= from@);
    true
}

/// `text` from character `i` on, with `from` replaced by `to` (see
/// [`replace_spec`]).
fn replace_from(text: &str, n: usize, from: &str, m: usize, to: &str, i: usize) -> (r: String)
    requires
        n == text@.len(),
        m == from@.len(),
        m > 0,
        i <= n,
    ensures
        r@ == replace_spec(text@.subrange(i as int, n as int), from@, to@),
    decreases n - i,
{
    let ghost t = text@.subrange(i as int, n as int);
    if i == n {
        assert(t.len() == 0);
        return String::new();
    }
    if occurs_at(text, n, from, m, i) {
        let rest = replace_from(text, n, from, m, to, i + m);
        proof {
            assert(t.subrange(0, m as int) =~= text@.subrange(i as int, i + m));
            assert(t.subrange(m as int, t.len() as int) =~= text@.subrange(i + m, n as int));
        }
        String::from_str(to).concat(rest.as_str())
    } else {
        let rest = replace_from(text, n, from, m, to, i + 1);
        let head = String::from_str(text.substring_char(i, i + 1));
        proof {
            assert(t.subrange(1, t.len() as int) =~= text@.subrange(i + 1, n as int));
            assert(head@ =~= seq![t[0]]);
            if t.len() >= m {
                assert(t.subrange(0, m as int) =~= text@.subrange(i as int, i + m));
            }
        }
        head.concat(rest.as_str())
    }
}

/// `text` with every non-overlapping occurrence of a non-empty `from`,
/// scanning left to right, replaced by `to` (see [`replace_spec`]).
fn replace_all(text: &str, from: &str, to: &str) -> (r: String)
    requires
        from@.len() > 0,
    ensures
        r@ == replace_spec(text@, from@, to@),
{
    let n = text.unicode_len();
    let m = from.unicode_len();
    let r = replace_from(text, n, from, m, to, 0);
    assert(text@.subrange(0, n as int) =~= text@);
    r
}

/// The pooled line at `idx mod size` with `{name}` filled in (`None` for an
/// empty pool).
pub open spec fn pooled_line(pool: Seq<String>, idx: nat, name: Seq<char>) -> Option<Seq<char>> {
    if pool.len() == 0 {
        None
    } else {
        Some(replace_spec(pool[(idx % pool.len()) as int]@, "{name}"@, name))
    }
}

/// See [`pooled_line`].
pub fn line_with_name(pool: &Vec<String>, idx: usize, name: &str) -> (r: Option<String>)
    ensures
        match pooled_line(pool@, idx as nat, name@) {
            Some(l) => r matches Some(s) && s@ == l,
            None => r is None,
        },
{
    proof {
        reveal_strlit("{name}");
    }
    if pool.len() == 0 {
        return None;
    }
    let template = &pool[idx % pool.len()];
    Some(replace_all(template.as_str(), "{name}", name))
}

/// The pooled line at `idx mod size` with `{name}` and `{post}` filled in.
pub open spec fn pooled_line_post(pool: Seq<String>, idx: nat, name: Seq<char>, post: Seq<char>) -> Option<
    Seq<char>,
> {
    if pool.len() == 0 {
        None
    } else {
        Some(
            replace_spec(
                replace_spec(pool[(idx % pool.len()) as int]@, "{name}"@, name),
                "{post}"@,
                post,
            ),
        )
    }
}

/// See [`pooled_line_post`].
pub fn line_with_name_post(pool: &Vec<String>, idx: usize, name: &str, post: &str) -> (r: Option<String>)
    ensures
        match pooled_line_post(pool@, idx as nat, name@, post@) {
            Some(l) => r matches Some(s) && s@ == l,
            None => r is None,
        },
{
    proof {
        reveal_strlit("{name}");
        reveal_strlit("{post}");
    }
    if pool.len() == 0 {
        return None;
    }
    let template = &pool[idx % pool.len()];
    let named = replace_all(template.as_str(), "{name}", name);
    Some(replace_all(named.as_str(), "{post}", post))
}

/// Whether `a` sorts before `b`, character by character, a proper prefix
/// first (the order of `str`'s comparison).
pub open spec fn text_before(a: Seq<char>, b: Seq<char>) -> bool
    decreases a.len(),
{
    if a.len() == 0 {
        b.len() > 0
    } else if b.len() == 0 {
        false
    } else if a[0] != b[0] {
        (a[0] as u32) < (b[0] as u32)
    } else {
        text_before(a.drop_first(), b.drop_first())
    }
}

/// Text order is asymmetric.
pub proof fn lemma_text_before_asym(a: Seq<char>, b: Seq<char>)
    ensures
        text_before(a, b) ==> !text_before(b, a),
    decreases a.len(),
{
    if a.len() > 0 && b.len() > 0 && a[0] == b[0] {
        lemma_text_before_asym(a.drop_first(), b.drop_first());
    }
}

/// Text order is transitive.
pub proof fn lemma_text_before_trans(a: Seq<char>, b: Seq<char>, c: Seq<char>)
    ensures
        text_before(a, b) && text_before(b, c) ==> text_before(a, c),
    decreases a.len(),
{
    if a.len() > 0 && b.len() > 0 && c.len() > 0 && a[0] == b[0] && b[0] == c[0] {
        lemma_text_before_trans(a.drop_first(), b.drop_first(), c.drop_first());
    }
}

/// Of two different texts one sorts before the other.
pub proof fn lemma_text_before_total(a: Seq<char>, b: Seq<char>)
    ensures
        a != b ==> text_before(a, b) || text_before(b, a),
    decreases a.len(),
{
    if a.len() > 0 && b.len() > 0 {
        if a[0] == b[0] {
            lemma_text_before_total(a.drop_first(), b.drop_first());
            if a.drop_first() == b.drop_first() {
                assert(a =~= seq![a[0]] + a.drop_first());
                assert(b =~= seq![b[0]] + b.drop_first());
            }
        } else {
            let x = a[0];
            let y = b[0];
            vstd::utf8::char_u32_cast(x, x as u32);
            vstd::utf8::char_u32_cast(y, y as u32);
            assert((x as u32) != (y as u32));
        }
    } else if a.len() == 0 && b.len() == 0 {
        assert(a =~= b);
    }
}

proof fn lemma_text_before_skip(a: Seq<char>, b: Seq<char>, i: int)
    requires
        0 <= i < a.len(),
        i < b.len(),
        a[i] == b[i],
    ensures
        text_before(a.skip(i), b.skip(i)) == text_before(a.skip(i + 1), b.skip(i + 1)),
{
    assert(a.skip(i).drop_first() =~= a.skip(i + 1));
    assert(b.skip(i).drop_first() =~= b.skip(i + 1));
}

/// See [`text_before`].
pub fn str_before(a: &str, b: &str) -> (r: bool)
    ensures
        r == text_before(a@, b@),
{
    let n = a.unicode_len();
    let m = b.unicode_len();
    let mut i: usize = 0;
    proof {
        assert(a@.skip(0) =~= a@);
        assert(b@.skip(0) =~= b@);
    }
    while i < n && i < m
        invariant
            i <= n == a@.len(),
            i <= m == b@.len(),
            text_before(a@, b@) == text_before(a@.skip(i as int), b@.skip(i as int)),
        decreases n - i,
    {
        let x = a.get_char(i);
        let y = b.get_char(i);
        if x != y {
            proof {
                assert(a@.skip(i as int)[0] == x);
                assert(b@.skip(i as int)[0] == y);
            }
            return (x as u32) < (y as u32);
        }
        proof {
            lemma_text_before_skip(a@, b@, i as int);
        }
        i = i + 1;
    }
    n < m
}

/// `text` with every `key` replaced by `value`.
pub fn replace_in(text: &str, key: &str, value: &str) -> (r: String)
    requires
        key@.len() > 0,
    ensures
        r@ == replace_spec(text@, key@, value@),
{
    replace_all(text, key, value)
}

/// The pooled line at `idx mod size` with `key` filled by `value` (`None`
/// for an empty pool).
pub open spec fn pooled_fill(pool: Seq<String>, idx: nat, key: Seq<char>, value: Seq<char>) -> Option<Seq<char>> {
    if pool.len() == 0 {
        None
    } else {
        Some(replace_spec(pool[(idx % pool.len()) as int]@, key, value))
    }
}

/// See [`pooled_fill`].
pub fn fill_pooled(pool: &Vec<String>, idx: usize, key: &str, value: &str) -> (r: Option<String>)
    requires
        key@.len() > 0,
    ensures
        match pooled_fill(pool@, idx as nat, key@, value@) {
            Some(l) => r matches Some(s) && s@ == l,
            None => r is None,
        },
{
    if pool.len() == 0 {
        return None;
    }
    let template = &pool[idx % pool.len()];
    Some(replace_all(template.as_str(), key, value))
}

/// The digit character for `d` (a value past nine reads as nine).
pub open spec fn digit_char(d: nat) -> char {
    if d == 0 {
        '0'
    } else if d == 1 {
        '1'
    } else if d == 2 {
        '2'
    } else if d == 3 {
        '3'
    } else if d == 4 {
        '4'
    } else if d == 5 {
        '5'
    } else if d == 6 {
        '6'
    } else if d == 7 {
        '7'
    } else if d == 8 {
        '8'
    } else {
        '9'
    }
}

/// `n` written in decimal: most significant digit first, no leading zeros.
pub open spec fn decimal(n: nat) -> Seq<char>
    decreases n,
{
    if n < 10 {
        seq![digit_char(n)]
    } else {
        decimal(n / 10) + seq![digit_char(n % 10)]
    }
}

/// `n` written in decimal, with a leading minus when negative.
pub open spec fn signed_decimal(n: int) -> Seq<char> {
    if n < 0 {
        seq!['-'] + decimal((-n) as nat)
    } else {
        decimal(n as nat)
    }
}

fn digit_text(d: u64) -> (r: String)
    requires
        d < 10,
    ensures
        r@ == seq![digit_char(d as nat)],
{
    proof {
        reveal_strlit("0");
        reveal_strlit("1");
        reveal_strlit("2");
        reveal_strlit("3");
        reveal_strlit("4");
        reveal_strlit("5");
        reveal_strlit("6");
        reveal_strlit("7");
        reveal_strlit("8");
        reveal_strlit("9");
    }
    let t = if d == 0 {
        "0"
    } else if d == 1 {
        "1"
    } else if d == 2 {
        "2"
    } else if d == 3 {
        "3"
    } else if d == 4 {
        "4"
    } else if d == 5 {
        "5"
    } else if d == 6 {
        "6"
    } else if d == 7 {
        "7"
    } else if d == 8 {
        "8"
    } else {
        "9"
    };
    let r = String::from_str(t);
    assert(r@ =~= seq![digit_char(d as nat)]);
    r
}

/// `n` in decimal (see [`decimal`]).
pub fn decimal_text(n: u64) -> (r: String)
    ensures
        r@ == decimal(n as nat),
    decreases n,
{
    if n < 10 {
        digit_text(n)
    } else {
        let head = decimal_text(n / 10);
        let tail = digit_text(n % 10);
        head.concat(tail.as_str())
    }
}

/// `n` in decimal, a minus before a negative (see [`signed_decimal`]).
pub fn signed_decimal_text(n: i64) -> (r: String)
    ensures
        r@ == signed_decimal(n as int),
{
    proof {
        reveal_strlit("-");
    }
    if n >= 0 {
        decimal_text(n as u64)
    } else {
        let m: u64 = if n == i64::MIN {
            0x8000_0000_0000_0000
        } else {
            (-n) as u64
        };
        let digits = decimal_text(m);
        let r = String::from_str("-").concat(digits.as_str());
        assert(r@ =~= signed_decimal(n as int));
        r
    }
}

/// The pooled line at `idx mod size` with `key` filled by `value`, or
/// `fallback` for an empty pool.
pub open spec fn filled_or(pool: Seq<String>, idx: nat, key: Seq<char>, value: Seq<char>, fallback: Seq<char>) -> Seq<char> {
    match pooled_fill(pool, idx, key, value) {
        Some(l) => l,
        None => fallback,
    }
}

} // verus!
