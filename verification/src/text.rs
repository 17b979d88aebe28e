//! Character-level building blocks shared by the renderers: quote doubling,
//! decimal digits and ASCII case folding, each with its specification.

use vstd::prelude::*;

verus! {

/// `s` with every occurrence of the quote character `q` doubled.
pub open spec fn double_char(s: Seq<char>, q: char) -> Seq<char>
    decreases s.len(),
{
    if s.len() == 0 {
        Seq::empty()
    } else {
        let rest = double_char(s.drop_last(), q);
        if s.last() == q {
            rest + seq![q, q]
        } else {
            rest.push(s.last())
        }
    }
}

/// Appends one character to a string (`String::push`).
#[verifier::external_body]
pub(crate) fn push_char(s: &mut String, c: char)
    ensures
        final(s)@ == old(s)@.push(c),
{
    s.push(c);
}

/// Appends `src` to `out`, doubling every `q` on the way.
pub fn push_doubled(out: &mut String, src: &str, q: char)
    ensures
        final(out)@ == old(out)@ + double_char(src@, q),
{
    let n = src.unicode_len();
    let mut i: usize = 0;
    while i < n
        invariant
            n == src@.len(),
            i <= n,
            out@ == old(out)@ + double_char(src@.take(i as int), q),
        decreases n - i,
    {
        let c = src.get_char(i);
        assert(src@.take(i + 1).drop_last() == src@.take(i as int));
        if c == q {
            push_char(out, q);
            push_char(out, q);
        } else {
            push_char(out, c);
        }
        i = i + 1;
    }
    assert(src@.take(n as int) == src@);
}


/// The decimal digit character for `d` (meaningful for `0 <= d < 10`).
pub open spec fn digit_char(d: int) -> char {
    if d == 0 { '0' } else if d == 1 { '1' } else if d == 2 { '2' } else if d == 3 { '3' }
    else if d == 4 { '4' } else if d == 5 { '5' } else if d == 6 { '6' } else if d == 7 { '7' }
    else if d == 8 { '8' } else { '9' }
}

/// The decimal digits of `n`, most significant first, without leading zeros.
pub open spec fn dec_nat(n: nat) -> Seq<char>
    decreases n,
{
    if n < 10 {
        seq![digit_char(n as int)]
    } else {
        dec_nat(n / 10).push(digit_char((n % 10) as int))
    }
}

/// The decimal form of the integer `i`, with a leading `-` when negative.
pub open spec fn dec_int(i: int) -> Seq<char> {
    if i < 0 {
        seq!['-'] + dec_nat((-i) as nat)
    } else {
        dec_nat(i as nat)
    }
}

fn digit(d: u64) -> (c: char)
    requires
        d < 10,
    ensures
        c == digit_char(d as int),
{
    match d {
        0 => '0',
        1 => '1',
        2 => '2',
        3 => '3',
        4 => '4',
        5 => '5',
        6 => '6',
        7 => '7',
        8 => '8',
        _ => '9',
    }
}

/// Appends the decimal digits of `n`.
pub fn push_u64(out: &mut String, n: u64)
    ensures
        final(out)@ == old(out)@ + dec_nat(n as nat),
    decreases n,
{
    if n >= 10 {
        push_u64(out, n / 10);
    }
    push_char(out, digit(n % 10));
}

/// Appends the decimal form of `n` (as `i64`'s `Display` writes it).
pub fn push_i64(out: &mut String, n: i64)
    ensures
        final(out)@ == old(out)@ + dec_int(n as int),
{
    if n < 0 {
        push_char(out, '-');
        let magnitude: u64 = (0i128 - (n as i128)) as u64;
        push_u64(out, magnitude);
    } else {
        push_u64(out, n as u64);
    }
}

/// ASCII lower-casing of one character; every other character is unchanged.
pub open spec fn lower(c: char) -> char {
    if 'A' <= c && c <= 'Z' {
        ((c as u32) + 32) as char
    } else {
        c
    }
}

/// ASCII lower-casing of a whole sequence.
pub open spec fn lower_seq(s: Seq<char>) -> Seq<char> {
    s.map_values(|c: char| lower(c))
}

/// Equality of two sequences up to ASCII case (`str::eq_ignore_ascii_case`).
pub open spec fn eq_ignore_case(a: Seq<char>, b: Seq<char>) -> bool {
    lower_seq(a) == lower_seq(b)
}

pub fn ascii_lower(c: char) -> (r: char)
    ensures
        r == lower(c),
{
    if 'A' <= c && c <= 'Z' {
        ((c as u8) + 32) as char
    } else {
        c
    }
}


/// `parts` joined with `sep` between neighbours (`[T]::join`).
pub open spec fn join(parts: Seq<Seq<char>>, sep: Seq<char>) -> Seq<char>
    decreases parts.len(),
{
    if parts.len() == 0 {
        Seq::empty()
    } else if parts.len() == 1 {
        parts[0]
    } else {
        join(parts.drop_last(), sep) + sep + parts.last()
    }
}

pub proof fn lemma_join_push(parts: Seq<Seq<char>>, sep: Seq<char>, x: Seq<char>)
    ensures
        join(parts.push(x), sep) == (if parts.len() == 0 { x } else { join(parts, sep) + sep + x }),
{
    assert(parts.push(x).drop_last() =~= parts);
}

/// The views of a sequence of strings.
pub open spec fn views(v: Seq<String>) -> Seq<Seq<char>> {
    v.map_values(|t: String| t@)
}

/// Appends the strings of `parts`, with `sep` between neighbours.
pub fn push_join(out: &mut String, parts: &Vec<String>, sep: &str)
    ensures
        final(out)@ == old(out)@ + join(views(parts@), sep@),
{
    let n = parts.len();
    let mut i: usize = 0;
    while i < n
        invariant
            n == parts@.len(),
            i <= n,
            out@ == old(out)@ + join(views(parts@.take(i as int)), sep@),
        decreases n - i,
    {
        proof {
            assert(views(parts@.take(i + 1)) =~= views(parts@.take(i as int)).push(parts@[i as int]@));
            lemma_join_push(views(parts@.take(i as int)), sep@, parts@[i as int]@);
        }
        if i > 0 {
            out.append(sep);
        }
        out.append(parts[i].as_str());
        i = i + 1;
    }
    assert(parts@.take(n as int) =~= parts@);
}

/// Whether two strings hold the same characters.
pub fn str_eq(a: &str, b: &str) -> (r: bool)
    ensures
        r == (a@ == b@),
{
    let n = a.unicode_len();
    if n != b.unicode_len() {
        return false;
    }
    let mut i: usize = 0;
    while i < n
        invariant
            n == a@.len(),
            n == b@.len(),
            i <= n,
            forall|j: int| 0 <= j < i ==> a@[j] == b@[j],
        decreases n - i,
    {
        if a.get_char(i) != b.get_char(i) {
            return false;
        }
        i = i + 1;
    }
    assert(a@ =~= b@);
    true
}

/// Whether two strings are equal up to ASCII case (`str::eq_ignore_ascii_case`).
pub fn eq_ignore_ascii_case(a: &str, b: &str) -> (r: bool)
    ensures
        r == eq_ignore_case(a@, b@),
{
    let n = a.unicode_len();
    if n != b.unicode_len() {
        proof {
            assert(lower_seq(a@).len() != lower_seq(b@).len());
        }
        return false;
    }
    let mut i: usize = 0;
    while i < n
        invariant
            n == a@.len(),
            n == b@.len(),
            i <= n,
            forall|j: int| 0 <= j < i ==> lower(a@[j]) == lower(b@[j]),
        decreases n - i,
    {
        if ascii_lower(a.get_char(i)) != ascii_lower(b.get_char(i)) {
            proof {
                assert(lower_seq(a@)[i as int] != lower_seq(b@)[i as int]);
            }
            return false;
        }
        i = i + 1;
    }
    assert(lower_seq(a@) =~= lower_seq(b@));
    true
}

/// The ASCII lower-case form of a string (`str::to_ascii_lowercase`).
pub fn to_ascii_lowercase(s: &str) -> (r: String)
    ensures
        r@ == lower_seq(s@),
{
    let mut out = String::new();
    let n = s.unicode_len();
    let mut i: usize = 0;
    while i < n
        invariant
            n == s@.len(),
            i <= n,
            out@ == lower_seq(s@.take(i as int)),
        decreases n - i,
    {
        let c = s.get_char(i);
        push_char(&mut out, ascii_lower(c));
        assert(lower_seq(s@.take(i + 1)) =~= lower_seq(s@.take(i as int)).push(lower(c)));
        i = i + 1;
    }
    assert(s@.take(n as int) =~= s@);
    out
}

/// Reads back the body of a quoted literal front to back: `qq` stands for
/// one `q`; a lone `q` would end the literal early, so the body is refused.
pub open spec fn undouble(s: Seq<char>, q: char) -> Option<Seq<char>>
    decreases s.len(),
{
    if s.len() == 0 {
        Some(Seq::empty())
    } else if s[0] != q {
        match undouble(s.drop_first(), q) {
            Some(rest) => Some(seq![s[0]] + rest),
            None => None,
        }
    } else if s.len() >= 2 && s[1] == q {
        match undouble(s.subrange(2, s.len() as int), q) {
            Some(rest) => Some(seq![q] + rest),
            None => None,
        }
    } else {
        None
    }
}

proof fn lemma_double_char_concat(a: Seq<char>, b: Seq<char>, q: char)
    ensures
        double_char(a + b, q) == double_char(a, q) + double_char(b, q),
    decreases b.len(),
{
    if b.len() == 0 {
        assert(a + b =~= a);
        assert(double_char(b, q) =~= Seq::<char>::empty());
        assert(double_char(a, q) + double_char(b, q) =~= double_char(a, q));
    } else {
        assert((a + b).drop_last() =~= a + b.drop_last());
        assert((a + b).last() == b.last());
        lemma_double_char_concat(a, b.drop_last(), q);
        if b.last() == q {
            assert(double_char(a, q) + double_char(b, q) =~= double_char(a, q) + double_char(
                b.drop_last(),
                q,
            ) + seq![q, q]);
        } else {
            assert(double_char(a, q) + double_char(b, q) =~= (double_char(a, q) + double_char(
                b.drop_last(),
                q,
            )).push(b.last()));
        }
    }
}

/// Quote doubling is undone by reading the body back: a quoted literal
/// stands for exactly the text it was built from, and no character of that
/// text can end the literal early.
pub proof fn lemma_undouble_double(s: Seq<char>, q: char)
    ensures
        undouble(double_char(s, q), q) == Some(s),
    decreases s.len(),
{
    if s.len() == 0 {
        assert(double_char(s, q) =~= Seq::<char>::empty());
    } else {
        let c = s[0];
        let rest = s.drop_first();
        assert(s =~= seq![c] + rest);
        lemma_double_char_concat(seq![c], rest, q);
        assert(seq![c].drop_last() =~= Seq::<char>::empty());
        assert(double_char(Seq::<char>::empty(), q) =~= Seq::<char>::empty());
        lemma_undouble_double(rest, q);
        let d = double_char(s, q);
        if c == q {
            assert(double_char(seq![c], q) =~= seq![q, q]);
            assert(d.subrange(2, d.len() as int) =~= double_char(rest, q));
            assert(seq![q] + rest =~= s);
        } else {
            assert(double_char(seq![c], q) =~= seq![c]);
            assert(d.drop_first() =~= double_char(rest, q));
            assert(seq![c] + rest =~= s);
        }
    }
}

/// `digits` left-padded with `0` to at least `w` characters.
pub open spec fn zero_pad(digits: Seq<char>, w: nat) -> Seq<char> {
    if digits.len() >= w {
        digits
    } else {
        Seq::new((w - digits.len()) as nat, |i: int| '0') + digits
    }
}

/// The decimal form of `n` zero-padded to width `w` (`format!("{n:0w$}")`).
pub open spec fn dec_pad(n: nat, w: nat) -> Seq<char> {
    zero_pad(dec_nat(n), w)
}

/// The decimal form of `i` zero-padded to width `w`, the sign counting in
/// the width (`format!("{i:0w$}")`).
pub open spec fn dec_pad_int(i: int, w: nat) -> Seq<char> {
    if i < 0 {
        seq!['-'] + zero_pad(dec_nat((-i) as nat), if w >= 1 { (w - 1) as nat } else { 0 })
    } else {
        zero_pad(dec_nat(i as nat), w)
    }
}

/// Appends `digits` left-padded with `0` to at least `w` characters.
fn push_zero_padded(out: &mut String, digits: &str, w: usize)
    ensures
        final(out)@ == old(out)@ + zero_pad(digits@, w as nat),
{
    let len = digits.unicode_len();
    if len < w {
        let mut k: usize = 0;
        while k < w - len
            invariant
                len == digits@.len(),
                len < w,
                k <= w - len,
                out@ == old(out)@ + Seq::new(k as nat, |i: int| '0'),
            decreases w - len - k,
        {
            push_char(out, '0');
            assert(Seq::new((k + 1) as nat, |i: int| '0') =~= Seq::new(k as nat, |i: int| '0').push(
                '0',
            ));
            k = k + 1;
        }
    }
    out.append(digits);
    assert(out@ =~= old(out)@ + zero_pad(digits@, w as nat));
}

/// Appends the decimal form of `n` zero-padded to width `w`.
pub fn push_u64_padded(out: &mut String, n: u64, w: usize)
    ensures
        final(out)@ == old(out)@ + dec_pad(n as nat, w as nat),
{
    let mut digits = String::new();
    push_u64(&mut digits, n);
    assert(digits@ =~= dec_nat(n as nat));
    push_zero_padded(out, digits.as_str(), w);
}

/// Appends the decimal form of `n` zero-padded to width `w`, the sign
/// counting in the width.
pub fn push_i64_padded(out: &mut String, n: i64, w: usize)
    ensures
        final(out)@ == old(out)@ + dec_pad_int(n as int, w as nat),
{
    if n < 0 {
        push_char(out, '-');
        let magnitude: u64 = (0i128 - (n as i128)) as u64;
        let rest: usize = if w >= 1 { w - 1 } else { 0 };
        push_u64_padded(out, magnitude, rest);
        assert(out@ =~= old(out)@ + dec_pad_int(n as int, w as nat));
    } else {
        push_u64_padded(out, n as u64, w);
    }
}

/// `parts` separated by `sep`, built from the front: the first part, then
/// `sep` and the rest.
pub open spec fn sep_list(parts: Seq<Seq<char>>, sep: Seq<char>) -> Seq<char>
    decreases parts.len(),
{
    if parts.len() == 0 {
        Seq::empty()
    } else if parts.len() == 1 {
        parts[0]
    } else {
        parts[0] + sep + sep_list(parts.drop_first(), sep)
    }
}

proof fn lemma_sep_list_last(parts: Seq<Seq<char>>, sep: Seq<char>)
    requires
        parts.len() >= 2,
    ensures
        sep_list(parts, sep) == sep_list(parts.drop_last(), sep) + sep + parts.last(),
    decreases parts.len(),
{
    if parts.len() == 2 {
        assert(parts.drop_first() =~= seq![parts[1]]);
        assert(parts.drop_last() =~= seq![parts[0]]);
        assert(sep_list(parts.drop_first(), sep) == parts[1]);
        assert(sep_list(parts.drop_last(), sep) == parts[0]);
        assert(sep_list(parts, sep) =~= parts[0] + sep + parts[1]);
    } else {
        let df = parts.drop_first();
        let dl = parts.drop_last();
        lemma_sep_list_last(df, sep);
        assert(df.drop_last() =~= dl.drop_first());
        assert(df.last() == parts.last());
        assert(dl[0] == parts[0]);
        assert(sep_list(dl, sep) == dl[0] + sep + sep_list(dl.drop_first(), sep));
        assert(sep_list(parts, sep) =~= sep_list(dl, sep) + sep + parts.last());
    }
}

/// Joining from the back and listing from the front agree: every part
/// appears once, in order, with `sep` between neighbours.
pub proof fn lemma_join_is_sep_list(parts: Seq<Seq<char>>, sep: Seq<char>)
    ensures
        join(parts, sep) == sep_list(parts, sep),
    decreases parts.len(),
{
    if parts.len() >= 2 {
        lemma_join_is_sep_list(parts.drop_last(), sep);
        lemma_sep_list_last(parts, sep);
    }
}

/// The value of a decimal digit character.
pub open spec fn char_digit(c: char) -> int {
    (c as u32) as int - ('0' as u32) as int
}

/// A character `0` to `9`.
pub open spec fn is_digit(c: char) -> bool {
    '0' <= c && c <= '9'
}

/// The number a string of decimal digits spells, most significant first.
pub open spec fn digits_value(s: Seq<char>) -> int
    decreases s.len(),
{
    if s.len() == 0 {
        0
    } else {
        10 * digits_value(s.drop_last()) + char_digit(s.last())
    }
}

proof fn lemma_digit_char_value(k: int)
    requires
        0 <= k < 10,
    ensures
        char_digit(digit_char(k)) == k,
        is_digit(digit_char(k)),
{
    assert(('0' as u32) == 48);
    assert(('1' as u32) == 49);
    assert(('2' as u32) == 50);
    assert(('3' as u32) == 51);
    assert(('4' as u32) == 52);
    assert(('5' as u32) == 53);
    assert(('6' as u32) == 54);
    assert(('7' as u32) == 55);
    assert(('8' as u32) == 56);
    assert(('9' as u32) == 57);
}

/// The decimal digits of `n` are digits, spell `n`, and have no leading
/// zero (`0` itself is the one digit `0`).
pub proof fn lemma_dec_nat_spells(n: nat)
    ensures
        forall|i: int| 0 <= i < dec_nat(n).len() ==> is_digit(#[trigger] dec_nat(n)[i]),
        digits_value(dec_nat(n)) == n,
        dec_nat(n).len() >= 1,
        dec_nat(n).len() > 1 ==> dec_nat(n)[0] != '0',
    decreases n,
{
    lemma_digit_char_value((n % 10) as int);
    if n < 10 {
        let d = dec_nat(n);
        assert(d.drop_last() =~= Seq::<char>::empty());
        assert(digits_value(d.drop_last()) == 0);
        assert(d.last() == digit_char((n % 10) as int));
        assert(digits_value(d) == 10 * digits_value(d.drop_last()) + char_digit(d.last()));
    } else {
        lemma_dec_nat_spells(n / 10);
        let d = dec_nat(n);
        let r = dec_nat(n / 10);
        assert(d.drop_last() =~= r);
        assert(d[0] == r[0]);
        assert(d.last() == digit_char((n % 10) as int));
        assert(digits_value(d) == 10 * digits_value(r) + char_digit(d.last()));
        assert(10 * (n / 10) + n % 10 == n);
        if r.len() == 1 {
            assert(r[0] != '0') by {
                if r[0] == '0' {
                    assert(digits_value(r) == 10 * digits_value(r.drop_last()) + char_digit(r[0]));
                    assert(r.drop_last().len() == 0);
                }
            }
        }
    }
}

} // verus!
