//! Building blocks of the delimited text format: decimal digits, printing and
//! parsing of unsigned numbers, and the lemmas relating the two directions.

use vstd::prelude::*;
use vstd::string::StrSliceExecFns;
use vstd::string::StringExecFns;

verus! {

/// A decimal digit character.
pub open spec fn is_digit(c: char) -> bool {
    48 <= c as u32 <= 57
}

/// The digit character for a value below ten.
pub open spec fn digit_char(d: nat) -> char {
    if d == 0 {
        '0'
    } else if d == 1 {
        '1'
    } else if d == 2 {
        '2'
    } else if d == 3 {
        '3'
    } else if d == 4 {
        '4'
    } else if d == 5 {
        '5'
    } else if d == 6 {
        '6'
    } else if d == 7 {
        '7'
    } else if d == 8 {
        '8'
    } else {
        '9'
    }
}

/// The value of a digit character.
pub open spec fn digit_val(c: char) -> nat {
    (c as u32 - 48) as nat
}

/// Every character of `s` is a decimal digit.
pub open spec fn all_digits(s: Seq<char>) -> bool {
    forall|i: int| 0 <= i < s.len() ==> is_digit(s[i])
}

/// The number denoted by a sequence of digit characters, most significant first.
pub open spec fn digits_val(s: Seq<char>) -> nat
    decreases s.len(),
{
    if s.len() == 0 {
        0
    } else {
        digits_val(s.drop_last()) * 10 + digit_val(s.last())
    }
}

/// The decimal rendering of `n`: no sign, no padding, `0` for zero.
pub open spec fn u32_digits(n: nat) -> Seq<char>
    decreases n,
{
    if n < 10 {
        seq![digit_char(n)]
    } else {
        u32_digits(n / 10).push(digit_char(n % 10))
    }
}

/// What parsing a decimal field yields: the denoted value, provided the field
/// is non-empty, all digits, and the value fits in a `u32`.
pub open spec fn parse_u32_spec(s: Seq<char>) -> Option<u32> {
    if s.len() > 0 && all_digits(s) && digits_val(s) <= u32::MAX {
        Some(digits_val(s) as u32)
    } else {
        None
    }
}

pub proof fn lemma_digit_char_val(d: nat)
    requires
        d < 10,
    ensures
        is_digit(digit_char(d)),
        digit_val(digit_char(d)) == d,
{
}

/// A rendered number is a non-empty digit string.
pub proof fn lemma_u32_digits_wf(n: nat)
    ensures
        u32_digits(n).len() >= 1,
        all_digits(u32_digits(n)),
    decreases n,
{
    if n < 10 {
        lemma_digit_char_val(n);
    } else {
        lemma_u32_digits_wf(n / 10);
        lemma_digit_char_val(n % 10);
        assert forall|i: int| 0 <= i < u32_digits(n).len() implies is_digit(u32_digits(n)[i]) by {
            if i < u32_digits(n / 10).len() {
                assert(u32_digits(n)[i] == u32_digits(n / 10)[i]);
            }
        }
    }
}

/// Printing then reading a number is the identity.
pub proof fn lemma_u32_digits_val(n: nat)
    ensures
        digits_val(u32_digits(n)) == n,
    decreases n,
{
    if n < 10 {
        lemma_digit_char_val(n);
        let s = u32_digits(n);
        assert(s.drop_last() =~= Seq::<char>::empty());
        assert(s.last() == digit_char(n));
        assert(digits_val(s) == digits_val(Seq::<char>::empty()) * 10 + digit_val(digit_char(n)));
    } else {
        lemma_u32_digits_val(n / 10);
        lemma_digit_char_val(n % 10);
        let s = u32_digits(n);
        assert(s.drop_last() =~= u32_digits(n / 10));
        assert(s.last() == digit_char(n % 10));
        assert(digits_val(s) == digits_val(u32_digits(n / 10)) * 10 + digit_val(digit_char(n % 10)));
        assert(digits_val(s) == (n / 10) * 10 + n % 10);
        assert((n / 10) * 10 + n % 10 == n) by (nonlinear_arith);
    }
}

/// Rendering then parsing a `u32` gives it back.
pub proof fn lemma_parse_u32_digits(n: u32)
    ensures
        parse_u32_spec(u32_digits(n as nat)) == Some(n),
{
    lemma_u32_digits_wf(n as nat);
    lemma_u32_digits_val(n as nat);
}

/// A prefix of a digit string denotes no more than the whole.
pub proof fn lemma_digits_val_prefix(s: Seq<char>, j: int)
    requires
        0 <= j <= s.len(),
    ensures
        digits_val(s.take(j)) <= digits_val(s),
    decreases s.len(),
{
    if j == s.len() {
        assert(s.take(j) =~= s);
    } else {
        assert(s.take(j) =~= s.drop_last().take(j));
        lemma_digits_val_prefix(s.drop_last(), j);
    }
}

/// The single-character string for a digit value.
pub fn digit_str(d: u32) -> (r: &'static str)
    requires
        d < 10,
    ensures
        r@ == seq![digit_char(d as nat)],
{
    let r: &'static str = if d == 0 {
        "0"
    } else if d == 1 {
        "1"
    } else if d == 2 {
        "2"
    } else if d == 3 {
        "3"
    } else if d == 4 {
        "4"
    } else if d == 5 {
        "5"
    } else if d == 6 {
        "6"
    } else if d == 7 {
        "7"
    } else if d == 8 {
        "8"
    } else {
        "9"
    };
    proof {
        reveal_strlit("0");
        reveal_strlit("1");
        reveal_strlit("2");
        reveal_strlit("3");
        reveal_strlit("4");
        reveal_strlit("5");
        reveal_strlit("6");
        reveal_strlit("7");
        reveal_strlit("8");
        reveal_strlit("9");
        assert(r@ =~= seq![digit_char(d as nat)]);
    }
    r
}

/// Renders `n` in decimal, exactly as `u32_digits` describes.
pub fn u32_to_string(n: u32) -> (r: String)
    ensures
        r@ == u32_digits(n as nat),
    decreases n,
{
    if n < 10 {
        String::from_str(digit_str(n))
    } else {
        let mut s = u32_to_string(n / 10);
        s.append(digit_str(n % 10));
        proof {
            assert(s@ =~= u32_digits(n as nat));
        }
        s
    }
}

/// Parses a decimal field; returns exactly what `parse_u32_spec` describes.
pub fn parse_u32(s: &str) -> (r: Option<u32>)
    ensures
        r == parse_u32_spec(s@),
{
    let n = s.unicode_len();
    if n == 0 {
        return None;
    }
    let mut acc: u32 = 0;
    let mut i: usize = 0;
    while i < n
        invariant
            0 < n == s@.len(),
            i <= n,
            all_digits(s@.take(i as int)),
            acc == digits_val(s@.take(i as int)),
        decreases n - i,
    {
        let c = s.get_char(i);
        let cv = c as u32;
        if cv < 48 || cv > 57 {
            proof {
                assert(!is_digit(s@[i as int]));
            }
            return None;
        }
        let d = cv - 48;
        proof {
            assert(s@.take(i + 1) =~= s@.take(i as int).push(s@[i as int]));
            assert((s@.take(i + 1)).drop_last() =~= s@.take(i as int));
            assert(digits_val(s@.take(i + 1)) == acc * 10 + d);
        }
        if acc > (u32::MAX - d) / 10 {
            proof {
                let q = ((u32::MAX - d) / 10) as int;
                assert(q * 10 + ((u32::MAX - d) % 10) == u32::MAX - d);
                assert(acc as int * 10 >= (q + 1) * 10) by (nonlinear_arith)
                    requires
                        acc as int >= q + 1,
                ;
                assert(digits_val(s@.take(i + 1)) > u32::MAX);
                lemma_digits_val_prefix(s@, i + 1);
            }
            return None;
        }
        proof {
            let q = ((u32::MAX - d) / 10) as int;
            assert(q * 10 + ((u32::MAX - d) % 10) == u32::MAX - d);
            assert(acc as int * 10 <= q * 10) by (nonlinear_arith)
                requires
                    acc as int <= q,
            ;
        }
        acc = acc * 10 + d;
        i = i + 1;
    }
    proof {
        assert(s@.take(n as int) =~= s@);
    }
    Some(acc)
}

/// An ASCII whitespace character, as stripped from the ends of a stored line.
pub open spec fn is_space(c: char) -> bool {
    c == ' ' || c == '\t' || c == '\r' || c == '\n'
}

/// `s` without its leading whitespace.
pub open spec fn trim_start_spec(s: Seq<char>) -> Seq<char>
    decreases s.len(),
{
    if s.len() > 0 && is_space(s[0]) {
        trim_start_spec(s.drop_first())
    } else {
        s
    }
}

/// `s` without its trailing whitespace.
pub open spec fn trim_end_spec(s: Seq<char>) -> Seq<char>
    decreases s.len(),
{
    if s.len() > 0 && is_space(s.last()) {
        trim_end_spec(s.drop_last())
    } else {
        s
    }
}

/// `s` without leading and trailing whitespace.
pub open spec fn trim_spec(s: Seq<char>) -> Seq<char> {
    trim_end_spec(trim_start_spec(s))
}

/// `s` without leading quote characters.
pub open spec fn unquote_start_spec(s: Seq<char>) -> Seq<char>
    decreases s.len(),
{
    if s.len() > 0 && s[0] == '"' {
        unquote_start_spec(s.drop_first())
    } else {
        s
    }
}

/// `s` without trailing quote characters.
pub open spec fn unquote_end_spec(s: Seq<char>) -> Seq<char>
    decreases s.len(),
{
    if s.len() > 0 && s.last() == '"' {
        unquote_end_spec(s.drop_last())
    } else {
        s
    }
}

/// `s` without all leading and trailing quote characters.
pub open spec fn unquote_spec(s: Seq<char>) -> Seq<char> {
    unquote_end_spec(unquote_start_spec(s))
}

/// `s` wrapped in one quote character on each side.
pub open spec fn quote_wrap(s: Seq<char>) -> Seq<char> {
    seq!['"'] + s + seq!['"']
}

/// Unwrapping inverts wrapping as long as the body neither starts nor ends
/// with a quote of its own.
pub proof fn lemma_unquote_wrap(body: Seq<char>)
    requires
        body.len() > 0,
        body[0] != '"',
        body.last() != '"',
    ensures
        unquote_spec(quote_wrap(body)) == body,
{
    let s = quote_wrap(body);
    assert(s.len() == body.len() + 2);
    assert(s[0] == '"');
    assert(s.drop_first() =~= body + seq!['"']);
    assert((body + seq!['"'])[0] == body[0]);
    assert(unquote_start_spec(body + seq!['"']) == body + seq!['"']);
    assert(unquote_start_spec(s) == body + seq!['"']);
    assert((body + seq!['"']).drop_last() =~= body);
    assert(unquote_end_spec(body + seq!['"']) == unquote_end_spec(body));
}

fn is_space_char(c: char) -> (b: bool)
    ensures
        b == is_space(c),
{
    c == ' ' || c == '\t' || c == '\r' || c == '\n'
}

/// Strips leading and trailing whitespace, exactly as `trim_spec` describes.
pub fn trim<'a>(s: &'a str) -> (r: &'a str)
    ensures
        r@ == trim_spec(s@),
{
    let n = s.unicode_len();
    let mut a: usize = 0;
    proof {
        assert(s@.skip(0) =~= s@);
    }
    while a < n && is_space_char(s.get_char(a))
        invariant
            n == s@.len(),
            a <= n,
            trim_start_spec(s@) == trim_start_spec(s@.skip(a as int)),
        decreases n - a,
    {
        proof {
            assert(s@.skip(a as int).drop_first() =~= s@.skip(a + 1));
        }
        a = a + 1;
    }
    proof {
        assert(trim_start_spec(s@.skip(a as int)) == s@.skip(a as int));
    }
    let mut b: usize = n;
    proof {
        assert(s@.subrange(a as int, n as int) =~= s@.skip(a as int));
    }
    while b > a && is_space_char(s.get_char(b - 1))
        invariant
            n == s@.len(),
            a <= b <= n,
            trim_start_spec(s@) == s@.skip(a as int),
            trim_end_spec(s@.skip(a as int)) == trim_end_spec(s@.subrange(a as int, b as int)),
        decreases b,
    {
        proof {
            let cur = s@.subrange(a as int, b as int);
            assert(cur.last() == s@[b - 1]);
            assert(cur.drop_last() =~= s@.subrange(a as int, b - 1));
        }
        b = b - 1;
    }
    proof {
        assert(trim_end_spec(s@.subrange(a as int, b as int)) == s@.subrange(a as int, b as int));
    }
    s.substring_char(a, b)
}

/// Strips all leading and trailing quote characters, as `unquote_spec`
/// describes.
pub fn unquote<'a>(s: &'a str) -> (r: &'a str)
    ensures
        r@ == unquote_spec(s@),
{
    let n = s.unicode_len();
    let mut a: usize = 0;
    proof {
        assert(s@.skip(0) =~= s@);
    }
    while a < n && s.get_char(a) == '"'
        invariant
            n == s@.len(),
            a <= n,
            unquote_start_spec(s@) == unquote_start_spec(s@.skip(a as int)),
        decreases n - a,
    {
        proof {
            assert(s@.skip(a as int).drop_first() =~= s@.skip(a + 1));
        }
        a = a + 1;
    }
    proof {
        assert(unquote_start_spec(s@.skip(a as int)) == s@.skip(a as int));
    }
    let mut b: usize = n;
    proof {
        assert(s@.subrange(a as int, n as int) =~= s@.skip(a as int));
    }
    while b > a && s.get_char(b - 1) == '"'
        invariant
            n == s@.len(),
            a <= b <= n,
            unquote_start_spec(s@) == s@.skip(a as int),
            unquote_end_spec(s@.skip(a as int)) == unquote_end_spec(s@.subrange(a as int, b as int)),
        decreases b,
    {
        proof {
            let cur = s@.subrange(a as int, b as int);
            assert(cur.last() == s@[b - 1]);
            assert(cur.drop_last() =~= s@.subrange(a as int, b - 1));
        }
        b = b - 1;
    }
    proof {
        assert(unquote_end_spec(s@.subrange(a as int, b as int)) == s@.subrange(a as int, b as int));
    }
    s.substring_char(a, b)
}

/// Splitting on a separator: `acc` is the piece under construction.
pub open spec fn split_rec(s: Seq<char>, sep: Seq<char>, acc: Seq<char>) -> Seq<Seq<char>>
    decreases s.len(),
{
    if sep.len() == 0 || s.len() < sep.len() {
        seq![acc + s]
    } else if s.take(sep.len() as int) == sep {
        seq![acc] + split_rec(s.skip(sep.len() as int), sep, Seq::empty())
    } else {
        split_rec(s.skip(1), sep, acc.push(s[0]))
    }
}

/// The pieces of `s` between occurrences of `sep`, leftmost match first.
pub open spec fn split_spec(s: Seq<char>, sep: Seq<char>) -> Seq<Seq<char>> {
    split_rec(s, sep, Seq::empty())
}

/// The fields joined with `sep` between neighbours.
pub open spec fn join_spec(fs: Seq<Seq<char>>, sep: Seq<char>) -> Seq<char>
    decreases fs.len(),
{
    if fs.len() == 0 {
        Seq::empty()
    } else if fs.len() == 1 {
        fs[0]
    } else {
        fs[0] + sep + join_spec(fs.drop_first(), sep)
    }
}

/// Whether `sep` occurs in `s` starting at position `i`.
pub open spec fn match_at_spec(s: Seq<char>, sep: Seq<char>, i: int) -> bool {
    0 <= i && i + sep.len() <= s.len() && s.subrange(i, i + sep.len()) == sep
}

/// No occurrence of `sep` begins inside `f`, even one running over its end.
pub open spec fn sep_free(f: Seq<char>, sep: Seq<char>) -> bool {
    forall|i: int| 0 <= i < f.len() ==> !#[trigger] match_at_spec(f + sep, sep, i)
}

/// A field with no character equal to the first character of `sep` is
/// separator-free.
pub proof fn lemma_head_free_sep_free(f: Seq<char>, sep: Seq<char>)
    requires
        sep.len() >= 1,
        forall|i: int| 0 <= i < f.len() ==> f[i] != sep[0],
    ensures
        sep_free(f, sep),
{
    assert forall|i: int| 0 <= i < f.len() implies !#[trigger] match_at_spec(f + sep, sep, i) by {
        if i + sep.len() <= (f + sep).len() {
            assert((f + sep).subrange(i, i + sep.len())[0] == f[i]);
        }
    }
}

/// A field of digits is free of any separator that does not start with a
/// digit.
pub proof fn lemma_digits_sep_free(f: Seq<char>, sep: Seq<char>)
    requires
        sep.len() >= 1,
        !is_digit(sep[0]),
        all_digits(f),
    ensures
        sep_free(f, sep),
{
    lemma_head_free_sep_free(f, sep);
}

proof fn lemma_split_rec_no_match(s: Seq<char>, sep: Seq<char>, acc: Seq<char>)
    requires
        sep.len() >= 1,
        forall|i: int| !#[trigger] match_at_spec(s, sep, i),
    ensures
        split_rec(s, sep, acc) == seq![acc + s],
    decreases s.len(),
{
    if s.len() >= sep.len() {
        assert(!match_at_spec(s, sep, 0));
        assert(s.take(sep.len() as int) == s.subrange(0, sep.len() as int));
        assert(s.take(sep.len() as int) != sep);
        let t = s.skip(1);
        assert forall|i: int| !#[trigger] match_at_spec(t, sep, i) by {
            if 0 <= i && i + sep.len() <= t.len() {
                assert(t.subrange(i, i + sep.len()) =~= s.subrange(i + 1, i + 1 + sep.len()));
                assert(!match_at_spec(s, sep, i + 1));
            }
        }
        lemma_split_rec_no_match(t, sep, acc.push(s[0]));
        assert(acc.push(s[0]) + t =~= acc + s);
    }
}

proof fn lemma_split_rec_field(f: Seq<char>, sep: Seq<char>, r: Seq<char>, acc: Seq<char>)
    requires
        sep.len() >= 1,
        sep_free(f, sep),
    ensures
        split_rec(f + sep + r, sep, acc) == seq![acc + f] + split_rec(r, sep, Seq::empty()),
    decreases f.len(),
{
    let s = f + sep + r;
    if f.len() == 0 {
        assert(s.take(sep.len() as int) =~= sep);
        assert(s.skip(sep.len() as int) =~= r);
        assert(acc + f =~= acc);
    } else {
        assert(!match_at_spec(f + sep, sep, 0));
        assert(s.take(sep.len() as int) =~= (f + sep).subrange(0, sep.len() as int));
        assert(s.take(sep.len() as int) != sep);
        let f1 = f.skip(1);
        assert forall|i: int| 0 <= i < f1.len() implies !#[trigger] match_at_spec(
            f1 + sep,
            sep,
            i,
        ) by {
            assert((f1 + sep).subrange(i, i + sep.len()) =~= (f + sep).subrange(
                i + 1,
                i + 1 + sep.len(),
            ));
            assert(!match_at_spec(f + sep, sep, i + 1));
        }
        lemma_split_rec_field(f1, sep, r, acc.push(f[0]));
        assert(f1 + sep + r =~= s.skip(1));
        assert(acc.push(f[0]) + f1 =~= acc + f);
    }
}

/// Splitting undoes joining, provided no field contains (or overlaps into) an
/// occurrence of the separator.
pub proof fn lemma_split_join(fs: Seq<Seq<char>>, sep: Seq<char>)
    requires
        fs.len() >= 1,
        sep.len() >= 1,
        forall|k: int| 0 <= k < fs.len() ==> sep_free(#[trigger] fs[k], sep),
    ensures
        split_spec(join_spec(fs, sep), sep) == fs,
    decreases fs.len(),
{
    if fs.len() == 1 {
        let f = fs[0];
        assert(sep_free(f, sep));
        assert forall|i: int| !#[trigger] match_at_spec(f, sep, i) by {
            if 0 <= i && i + sep.len() <= f.len() {
                assert(f.subrange(i, i + sep.len()) =~= (f + sep).subrange(i, i + sep.len()));
                assert(i < f.len());
                assert(!match_at_spec(f + sep, sep, i));
            }
        }
        lemma_split_rec_no_match(f, sep, Seq::empty());
        assert(Seq::<char>::empty() + f =~= f);
        assert(split_spec(join_spec(fs, sep), sep) =~= fs);
    } else {
        let rest = fs.drop_first();
        let r = join_spec(rest, sep);
        lemma_split_rec_field(fs[0], sep, r, Seq::empty());
        lemma_split_join(rest, sep);
        assert(Seq::<char>::empty() + fs[0] =~= fs[0]);
        assert(seq![fs[0]] + rest =~= fs);
    }
}

/// Appending one more field to a join appends a separator and the field.
pub proof fn lemma_join_push(fs: Seq<Seq<char>>, f: Seq<char>, sep: Seq<char>)
    requires
        fs.len() >= 1,
    ensures
        join_spec(fs.push(f), sep) == join_spec(fs, sep) + sep + f,
    decreases fs.len(),
{
    let g = fs.push(f);
    assert(g[0] == fs[0]);
    if fs.len() == 1 {
        assert(g.drop_first() =~= seq![f]);
        assert(join_spec(seq![f], sep) == f);
        assert(join_spec(g, sep) == g[0] + sep + join_spec(g.drop_first(), sep));
    } else {
        assert(g.drop_first() =~= fs.drop_first().push(f));
        lemma_join_push(fs.drop_first(), f, sep);
        assert(fs[0] + sep + (join_spec(fs.drop_first(), sep) + sep + f) =~= (fs[0] + sep
            + join_spec(fs.drop_first(), sep)) + sep + f);
    }
}

/// The first character of a join of non-empty fields.
pub proof fn lemma_join_first(fs: Seq<Seq<char>>, sep: Seq<char>)
    requires
        fs.len() >= 1,
        fs[0].len() > 0,
    ensures
        join_spec(fs, sep).len() > 0,
        join_spec(fs, sep)[0] == fs[0][0],
{
    if fs.len() > 1 {
        assert(join_spec(fs, sep)[0] == (fs[0] + sep + join_spec(fs.drop_first(), sep))[0]);
    }
}

/// The last character of a join of fields whose last field is non-empty.
pub proof fn lemma_join_last(fs: Seq<Seq<char>>, sep: Seq<char>)
    requires
        fs.len() >= 1,
        fs.last().len() > 0,
    ensures
        join_spec(fs, sep).len() > 0,
        join_spec(fs, sep).last() == fs.last().last(),
    decreases fs.len(),
{
    if fs.len() > 1 {
        let rest = fs.drop_first();
        lemma_join_last(rest, sep);
        let j = join_spec(fs, sep);
        assert(j == fs[0] + sep + join_spec(rest, sep));
        assert(j.last() == join_spec(rest, sep).last());
    }
}

/// Whether `sep` occurs in `s` at position `i`.
fn match_at(s: &str, sep: &str, i: usize) -> (b: bool)
    requires
        i + sep@.len() <= s@.len(),
    ensures
        b == match_at_spec(s@, sep@, i as int),
{
    let n = s.unicode_len();
    let m = sep.unicode_len();
    let mut j: usize = 0;
    while j < m
        invariant
            n == s@.len(),
            m == sep@.len(),
            i + m <= n,
            j <= m,
            forall|k: int| 0 <= k < j ==> s@[i + k] == sep@[k],
        decreases m - j,
    {
        if s.get_char(i + j) != sep.get_char(j) {
            proof {
                assert(s@.subrange(i as int, i + sep@.len())[j as int] != sep@[j as int]);
            }
            return false;
        }
        j = j + 1;
    }
    proof {
        assert(s@.subrange(i as int, i + sep@.len()) =~= sep@);
    }
    true
}

/// Splits `s` on `sep`, exactly as `split_spec` describes.
pub fn split_on(s: &str, sep: &str) -> (r: Vec<String>)
    requires
        sep@.len() >= 1,
    ensures
        r.deep_view() == split_spec(s@, sep@),
{
    let n = s.unicode_len();
    let m = sep.unicode_len();
    let mut out: Vec<String> = Vec::new();
    let mut start: usize = 0;
    let mut i: usize = 0;
    proof {
        assert(s@.skip(0) =~= s@);
        assert(s@.subrange(0, 0) =~= Seq::<char>::empty());
        assert(out.deep_view() =~~= Seq::<Seq<char>>::empty());
        assert(out.deep_view() + split_rec(s@.skip(0), sep@, s@.subrange(0, 0)) =~~= split_spec(
            s@,
            sep@,
        ));
    }
    if m <= n {
        while i <= n - m
            invariant
                n == s@.len(),
                m == sep@.len(),
                1 <= m <= n,
                start <= i <= n,
                split_spec(s@, sep@) == out.deep_view() + split_rec(
                    s@.skip(i as int),
                    sep@,
                    s@.subrange(start as int, i as int),
                ),
            decreases n - i,
        {
            let ghost acc = s@.subrange(start as int, i as int);
            let ghost tail = s@.skip(i as int);
            if match_at(s, sep, i) {
                let ghost out0 = out.deep_view();
                let piece = s.substring_char(start, i).to_owned();
                out.push(piece);
                proof {
                    assert(tail.take(m as int) =~= s@.subrange(i as int, i + m));
                    assert(tail.skip(m as int) =~= s@.skip(i + m));
                    assert(split_rec(tail, sep@, acc) == seq![acc] + split_rec(
                        s@.skip(i + m),
                        sep@,
                        Seq::empty(),
                    ));
                    assert(out.deep_view() =~~= out0 + seq![acc]);
                    assert(s@.subrange(i + m, i + m) =~= Seq::<char>::empty());
                    assert(out.deep_view() + split_rec(
                        s@.skip(i + m),
                        sep@,
                        s@.subrange(i + m, i + m),
                    ) =~~= out0 + (seq![acc] + split_rec(s@.skip(i + m), sep@, Seq::empty())));
                }
                start = i + m;
                i = i + m;
            } else {
                proof {
                    assert(tail.take(m as int) =~= s@.subrange(i as int, i + m));
                    assert(tail.skip(1) =~= s@.skip(i + 1));
                    assert(tail[0] == s@[i as int]);
                    assert(acc.push(s@[i as int]) =~= s@.subrange(start as int, i + 1));
                }
                i = i + 1;
            }
        }
    }
    let ghost out0 = out.deep_view();
    let last = s.substring_char(start, n).to_owned();
    out.push(last);
    proof {
        let acc = s@.subrange(start as int, i as int);
        let tail = s@.skip(i as int);
        assert(tail.len() < sep@.len());
        assert(split_rec(tail, sep@, acc) == seq![acc + tail]);
        assert(acc + tail =~= s@.subrange(start as int, n as int));
        assert(out.deep_view() =~~= out0 + seq![s@.subrange(start as int, n as int)]);
        assert(out.deep_view() =~~= split_spec(s@, sep@));
    }
    out
}

/// Joins the fields with `sep`, exactly as `join_spec` describes.
pub fn join_on(fields: &Vec<String>, sep: &str) -> (r: String)
    requires
        fields@.len() >= 1,
    ensures
        r@ == join_spec(fields.deep_view(), sep@),
{
    let ghost dv = fields.deep_view();
    let mut out = String::new();
    out.append(fields[0].as_str());
    proof {
        assert(dv.take(1) =~= seq![dv[0]]);
        assert(Seq::<char>::empty() + fields@[0]@ =~= dv[0]);
        assert(out@ == join_spec(dv.take(1), sep@));
    }
    let mut i: usize = 1;
    while i < fields.len()
        invariant
            dv == fields.deep_view(),
            dv.len() == fields@.len(),
            1 <= i <= fields@.len(),
            out@ == join_spec(dv.take(i as int), sep@),
        decreases fields@.len() - i,
    {
        out.append(sep);
        out.append(fields[i].as_str());
        proof {
            assert(dv.take(i + 1) =~= dv.take(i as int).push(dv[i as int]));
            lemma_join_push(dv.take(i as int), dv[i as int], sep@);
        }
        i = i + 1;
    }
    proof {
        assert(dv.take(i as int) =~= dv);
    }
    out
}

/// The separator written between two quoted fields of a stored line.
pub open spec fn field_sep() -> Seq<char> {
    "\",\""@
}

pub proof fn lemma_field_sep()
    ensures
        field_sep().len() == 3,
        field_sep()[0] == '"',
        field_sep()[1] == ',',
        field_sep()[2] == '"',
{
    reveal_strlit("\",\"");
}

/// One stored line: the rendered fields joined by the separator, the whole
/// wrapped in one quote on each side.
pub open spec fn csv_line_spec(fields: Seq<Seq<char>>) -> Seq<char> {
    quote_wrap(join_spec(fields, field_sep()))
}

/// The fields recovered from one stored line: outer whitespace trimmed, outer
/// quotes stripped, the rest split on the separator.
pub open spec fn csv_fields_spec(line: Seq<char>) -> Seq<Seq<char>> {
    split_spec(unquote_spec(trim_spec(line)), field_sep())
}

/// Reading a line back yields exactly the fields it was built from, provided
/// no field overlaps an occurrence of the separator and the outermost
/// characters are neither whitespace nor quotes.
pub proof fn lemma_csv_line_round_trip(fields: Seq<Seq<char>>)
    requires
        fields.len() >= 1,
        forall|k: int| 0 <= k < fields.len() ==> sep_free(#[trigger] fields[k], field_sep()),
        fields[0].len() > 0,
        !is_space(fields[0][0]),
        fields[0][0] != '"',
        fields.last().len() > 0,
        !is_space(fields.last().last()),
        fields.last().last() != '"',
    ensures
        csv_fields_spec(csv_line_spec(fields)) == fields,
{
    lemma_field_sep();
    let sep = field_sep();
    let body = join_spec(fields, sep);
    lemma_join_first(fields, sep);
    lemma_join_last(fields, sep);
    let line = quote_wrap(body);
    assert(line[0] == '"');
    assert(line.last() == '"');
    assert(trim_start_spec(line) == line);
    assert(trim_end_spec(line) == line);
    lemma_unquote_wrap(body);
    lemma_split_join(fields, sep);
}

/// Builds one stored line from the rendered fields.
pub fn csv_line(fields: &Vec<String>) -> (r: String)
    requires
        fields@.len() >= 1,
    ensures
        r@ == csv_line_spec(fields.deep_view()),
{
    let mut out = String::from_str("\"");
    let body = join_on(fields, "\",\"");
    out.append(body.as_str());
    out.append("\"");
    proof {
        reveal_strlit("\"");
        assert(out@ =~= csv_line_spec(fields.deep_view()));
    }
    out
}

/// `sub` occurs somewhere in `s`.
pub open spec fn contains_seq(s: Seq<char>, sub: Seq<char>) -> bool {
    exists|i: int|
        0 <= i && i + sub.len() <= s.len() && #[trigger] s.subrange(i, i + sub.len()) == sub
}

/// A sequence contains every prefix of itself.
pub proof fn lemma_contains_prefix(s: Seq<char>, rest: Seq<char>)
    ensures
        contains_seq(s + rest, s),
{
    let i: int = 0;
    assert((s + rest).subrange(i, i + s.len()) =~= s);
}

/// An occurrence survives extending the text on the right.
pub proof fn lemma_contains_extend_right(a: Seq<char>, b: Seq<char>, sub: Seq<char>)
    requires
        contains_seq(a, sub),
    ensures
        contains_seq(a + b, sub),
{
    let i = choose|i: int|
        0 <= i && i + sub.len() <= a.len() && #[trigger] a.subrange(i, i + sub.len()) == sub;
    assert((a + b).subrange(i, i + sub.len()) =~= a.subrange(i, i + sub.len()));
}

/// An occurrence survives extending the text on the left.
pub proof fn lemma_contains_extend_left(a: Seq<char>, b: Seq<char>, sub: Seq<char>)
    requires
        contains_seq(b, sub),
    ensures
        contains_seq(a + b, sub),
{
    let i = choose|i: int|
        0 <= i && i + sub.len() <= b.len() && #[trigger] b.subrange(i, i + sub.len()) == sub;
    let k = a.len() + i;
    assert((a + b).subrange(k, k + sub.len()) =~= b.subrange(i, i + sub.len()));
}

/// Character-for-character equality of two text slices.
pub fn str_eq(a: &str, b: &str) -> (r: bool)
    ensures
        r == (a@ == b@),
{
    let n = a.unicode_len();
    let m = b.unicode_len();
    if n != m {
        return false;
    }
    let mut i: usize = 0;
    while i < n
        invariant
            n == a@.len(),
            n == b@.len(),
            i <= n,
            forall|j: int| 0 <= j < i ==> a@[j] == b@[j],
        decreases n - i,
    {
        if a.get_char(i) != b.get_char(i) {
            return false;
        }
        i = i + 1;
    }
    proof {
        assert(a@ =~= b@);
    }
    true
}

/// No character of `s` is a double quote, so `s` cannot disturb the quoted
/// separators around it in a stored line.
pub open spec fn quote_free(s: Seq<char>) -> bool {
    forall|i: int| 0 <= i < s.len() ==> s[i] != '"'
}

/// The field at `i`, or `default` where the line had too few fields.
pub open spec fn field_or(parts: Seq<Seq<char>>, i: int, default: Seq<char>) -> Seq<char> {
    if 0 <= i < parts.len() {
        parts[i]
    } else {
        default
    }
}

/// The number denoted by a field, or `default` where it does not parse.
pub open spec fn u32_or(tok: Seq<char>, default: u32) -> u32 {
    match parse_u32_spec(tok) {
        Some(v) => v,
        None => default,
    }
}

/// Recovers the fields of one stored line.
pub fn csv_fields(s: &str) -> (r: Vec<String>)
    ensures
        r.deep_view() == csv_fields_spec(s@),
{
    proof {
        lemma_field_sep();
    }
    let t = trim(s);
    let b = unquote(t);
    split_on(b, "\",\"")
}

} // verus!

