//! Character-level building blocks shared by the codecs: decimal numbers and
//! delimiter-separated fields.

use vstd::prelude::*;

verus! {

/// Appends one character to a string.
///
/// Trusted: stands for `String::push`, which the standard library documents as
/// appending the given `char` to the end of the string.
#[verifier::external_body]
pub(crate) fn push_char(s: &mut String, c: char)
    ensures
        final(s)@ == old(s)@.push(c),
{
    s.push(c)
}

/// The characters of `s`, in order.
pub fn to_chars(s: &str) -> (out: Vec<char>)
    ensures
        out@ == s@,
{
    let mut out: Vec<char> = Vec::new();
    for c in it: s.chars()
        invariant
            out@ == it.seq().take(it.index() as int),
    {
        out.push(c);
    }
    out
}

/// The string made of `cs[from..to]`.
pub fn string_of(cs: &Vec<char>, from: usize, to: usize) -> (out: String)
    requires
        from <= to <= cs.len(),
    ensures
        out@ == cs@.subrange(from as int, to as int),
{
    let mut out = String::new();
    let mut i: usize = from;
    while i < to
        invariant
            from <= i <= to <= cs.len(),
            out@ == cs@.subrange(from as int, i as int),
        decreases to - i,
    {
        push_char(&mut out, cs[i]);
        i += 1;
    }
    out
}

// ---------------------------------------------------------------------------
// Decimal digits
// ---------------------------------------------------------------------------

/// Whether `c` is one of `'0'..='9'`.
pub open spec fn is_digit(c: char) -> bool {
    '0' <= c && c <= '9'
}

/// The value of the decimal digit `c`.
pub open spec fn digit_value(c: char) -> nat
    recommends
        is_digit(c),
{
    (c as int - '0' as int) as nat
}

/// The character that writes the digit `d`.
pub open spec fn digit_char(d: nat) -> char
    recommends
        d < 10,
{
    (d + '0' as nat) as char
}

/// Whether every character of `s` is a decimal digit.
pub open spec fn all_digits(s: Seq<char>) -> bool {
    forall|i: int| 0 <= i < s.len() ==> is_digit(#[trigger] s[i])
}

/// The number that the digit string `s` writes; leading zeros are allowed and
/// the empty string writes zero.
pub open spec fn digits_value(s: Seq<char>) -> nat
    decreases s.len(),
{
    if s.len() == 0 {
        0
    } else {
        digits_value(s.drop_last()) * 10 + digit_value(s.last())
    }
}

/// The shortest decimal writing of `n`.
pub open spec fn decimal(n: nat) -> Seq<char>
    decreases n,
{
    if n < 10 {
        seq![digit_char(n)]
    } else {
        decimal(n / 10).push(digit_char(n % 10))
    }
}

/// The decimal writing of `i`, with a leading `-` when it is negative.
pub open spec fn signed_decimal(i: int) -> Seq<char> {
    if i < 0 {
        seq!['-'] + decimal((-i) as nat)
    } else {
        decimal(i as nat)
    }
}

/// What an unsigned decimal field denotes: an optional `+`, then at least one
/// digit. `None` for anything else.
pub open spec fn parse_unsigned(s: Seq<char>) -> Option<nat> {
    let body = if s.len() > 0 && s[0] == '+' {
        s.subrange(1, s.len() as int)
    } else {
        s
    };
    if body.len() > 0 && all_digits(body) {
        Some(digits_value(body))
    } else {
        None
    }
}

/// What a signed decimal field denotes: an optional `+` or `-`, then at least
/// one digit. `None` for anything else.
pub open spec fn parse_signed(s: Seq<char>) -> Option<int> {
    if s.len() > 0 && s[0] == '-' {
        let body = s.subrange(1, s.len() as int);
        if body.len() > 0 && all_digits(body) {
            Some(-(digits_value(body) as int))
        } else {
            None
        }
    } else {
        match parse_unsigned(s) {
            Some(v) => Some(v as int),
            None => None,
        }
    }
}

/// A digit string denotes at least what any of its prefixes denotes.
pub proof fn lemma_digits_value_prefix(s: Seq<char>, k: int)
    requires
        0 <= k <= s.len(),
    ensures
        digits_value(s.take(k)) <= digits_value(s),
    decreases s.len(),
{
    if k == s.len() {
        assert(s.take(k) =~= s);
    } else {
        lemma_digits_value_prefix(s.drop_last(), k);
        assert(s.drop_last().take(k) =~= s.take(k));
    }
}

/// `decimal(n)` is a nonempty digit string that denotes `n`.
pub proof fn lemma_decimal_digits(n: nat)
    ensures
        decimal(n).len() >= 1,
        all_digits(decimal(n)),
        digits_value(decimal(n)) == n,
    decreases n,
{
    if n < 10 {
        let s = decimal(n);
        assert(s.drop_last() =~= Seq::<char>::empty());
        assert(digits_value(s.drop_last()) == 0);
    } else {
        lemma_decimal_digits(n / 10);
        let s = decimal(n);
        assert(s.drop_last() =~= decimal(n / 10));
    }
}

/// Reading back what `decimal` wrote gives the number.
pub proof fn lemma_parse_unsigned_decimal(n: nat)
    ensures
        parse_unsigned(decimal(n)) == Some(n),
{
    lemma_decimal_digits(n);
    assert(is_digit(decimal(n)[0]));
}

/// Reading back what `signed_decimal` wrote gives the number.
pub proof fn lemma_parse_signed_decimal(i: int)
    ensures
        parse_signed(signed_decimal(i)) == Some(i),
{
    if i < 0 {
        let m = (-i) as nat;
        lemma_decimal_digits(m);
        let s = signed_decimal(i);
        assert(s.subrange(1, s.len() as int) =~= decimal(m));
    } else {
        lemma_parse_unsigned_decimal(i as nat);
        assert(is_digit(decimal(i as nat)[0])) by {
            lemma_decimal_digits(i as nat);
        }
    }
}

/// A decimal writing holds digits and at most a leading `-`, so it never
/// holds a character `c` that is neither.
pub proof fn lemma_signed_decimal_lacks(i: int, c: char)
    requires
        !is_digit(c),
        c != '-',
    ensures
        !signed_decimal(i).contains(c),
{
    if i < 0 {
        lemma_decimal_digits((-i) as nat);
        let d = decimal((-i) as nat);
        let s = signed_decimal(i);
        assert forall|k: int| 0 <= k < s.len() implies s[k] != c by {
            if k > 0 {
                assert(s[k] == d[k - 1]);
            }
        }
    } else {
        lemma_decimal_digits(i as nat);
    }
}

/// A decimal writing holds digits only.
pub proof fn lemma_decimal_lacks(n: nat, c: char)
    requires
        !is_digit(c),
    ensures
        !decimal(n).contains(c),
{
    lemma_decimal_digits(n);
}

/// Appends the decimal writing of `n` to `s`.
pub fn push_decimal(s: &mut String, n: u64)
    ensures
        final(s)@ == old(s)@ + decimal(n as nat),
    decreases n,
{
    if n >= 10 {
        push_decimal(s, n / 10);
    }
    let d: u8 = (n % 10) as u8;
    let c: char = (48u8 + d) as char;
    assert(c == digit_char((n % 10) as nat));
    push_char(s, c);
    proof {
        if n < 10 {
            assert(old(s)@.push(c) =~= old(s)@ + decimal(n as nat));
        } else {
            assert((old(s)@ + decimal((n / 10) as nat)).push(c) =~= old(s)@ + decimal(n as nat));
        }
    }
}

/// Appends the decimal writing of `i` to `s`, with `-` in front of a negative
/// number.
pub fn push_signed_decimal(s: &mut String, i: i64)
    ensures
        final(s)@ == old(s)@ + signed_decimal(i as int),
{
    if i < 0 {
        push_char(s, '-');
        let m: u64 = ((-(i + 1)) as u64) + 1;
        push_decimal(s, m);
        assert(old(s)@.push('-') + decimal(m as nat) =~= old(s)@ + signed_decimal(i as int));
    } else {
        push_decimal(s, i as u64);
    }
}

/// The decimal writing of `n` as a string of its own.
pub fn decimal_string(n: u64) -> (out: String)
    ensures
        out@ == decimal(n as nat),
{
    let mut out = String::new();
    push_decimal(&mut out, n);
    assert(Seq::<char>::empty() + decimal(n as nat) =~= decimal(n as nat));
    out
}

/// The number below `limit + 1` that the digits `cs[from..to]` write, if they
/// are digits, at least one, and write such a number.
pub fn parse_digits(cs: &Vec<char>, from: usize, to: usize, limit: u64) -> (out: Option<u64>)
    requires
        from <= to <= cs.len(),
    ensures
        out == ({
            let body = cs@.subrange(from as int, to as int);
            if body.len() > 0 && all_digits(body) && digits_value(body) <= limit {
                Some(digits_value(body) as u64)
            } else {
                None::<u64>
            }
        }),
{
    let ghost body = cs@.subrange(from as int, to as int);
    if from == to {
        return None;
    }
    let mut acc: u64 = 0;
    let mut i: usize = from;
    while i < to
        invariant
            from <= i <= to <= cs.len(),
            body == cs@.subrange(from as int, to as int),
            all_digits(body.take(i - from)),
            acc == digits_value(body.take(i - from)),
            acc <= limit,
        decreases to - i,
    {
        let c = cs[i];
        let ghost k = i - from;
        assert(body[k] == c);
        assert(body.take(k + 1).drop_last() =~= body.take(k));
        assert(body.take(k + 1).last() == c);
        if !(c >= '0' && c <= '9') {
            assert(!all_digits(body));
            return None;
        }
        let d: u64 = (c as u64) - ('0' as u64);
        assert(d == digit_value(c));
        if d > limit || acc > (limit - d) / 10 {
            proof {
                assert(acc * 10 + d > limit);
                lemma_digits_value_prefix(body, k + 1);
            }
            return None;
        }
        acc = acc * 10 + d;
        i += 1;
        assert(all_digits(body.take(i - from))) by {
            assert forall|j: int| 0 <= j < body.take(k + 1).len() implies is_digit(
                #[trigger] body.take(k + 1)[j],
            ) by {
                if j < k {
                    assert(body.take(k + 1)[j] == body.take(k)[j]);
                }
            }
        }
    }
    assert(body.take(to - from) =~= body);
    Some(acc)
}

/// Reads `cs[from..to]` as a signed decimal number that fits `isize`.
pub fn parse_isize_in(cs: &Vec<char>, from: usize, to: usize) -> (out: Option<isize>)
    requires
        from <= to <= cs.len(),
    ensures
        out == fit_isize(parse_signed(cs@.subrange(from as int, to as int))),
{
    let ghost s = cs@.subrange(from as int, to as int);
    if from == to {
        return None;
    }
    let first = cs[from];
    assert(s[0] == first);
    if first == '-' {
        assert(cs@.subrange(from + 1, to as int) =~= s.subrange(1, s.len() as int));
        let limit: u64 = (isize::MAX as u64) + 1;
        match parse_digits(cs, from + 1, to, limit) {
            None => None,
            Some(m) => {
                if m == limit {
                    Some(isize::MIN)
                } else {
                    Some(-(m as isize))
                }
            },
        }
    } else {
        let start: usize = if first == '+' {
            from + 1
        } else {
            from
        };
        proof {
            if first == '+' {
                assert(cs@.subrange(start as int, to as int) =~= s.subrange(1, s.len() as int));
            }
        }
        match parse_digits(cs, start, to, isize::MAX as u64) {
            None => None,
            Some(m) => Some(m as isize),
        }
    }
}

/// Reads `cs[from..to]` as an unsigned decimal number that fits `usize`.
pub fn parse_usize_in(cs: &Vec<char>, from: usize, to: usize) -> (out: Option<usize>)
    requires
        from <= to <= cs.len(),
    ensures
        out == fit_usize(parse_unsigned(cs@.subrange(from as int, to as int))),
{
    let ghost s = cs@.subrange(from as int, to as int);
    if from == to {
        return None;
    }
    let first = cs[from];
    assert(s[0] == first);
    let start: usize = if first == '+' {
        from + 1
    } else {
        from
    };
    proof {
        if first == '+' {
            assert(cs@.subrange(start as int, to as int) =~= s.subrange(1, s.len() as int));
        }
    }
    match parse_digits(cs, start, to, usize::MAX as u64) {
        None => None,
        Some(m) => Some(m as usize),
    }
}

/// The number that `v` denotes, if there is one and it fits `isize`.
pub open spec fn fit_isize(v: Option<int>) -> Option<isize> {
    match v {
        Some(i) => if isize::MIN <= i <= isize::MAX {
            Some(i as isize)
        } else {
            None
        },
        None => None,
    }
}

/// The number that `v` denotes, if there is one and it fits `usize`.
pub open spec fn fit_usize(v: Option<nat>) -> Option<usize> {
    match v {
        Some(n) => if n <= usize::MAX {
            Some(n as usize)
        } else {
            None
        },
        None => None,
    }
}

/// Reads `s` as a signed decimal number that fits `isize`.
pub fn parse_isize(s: &str) -> (out: Option<isize>)
    ensures
        out == fit_isize(parse_signed(s@)),
{
    let cs = to_chars(s);
    assert(cs@.subrange(0, cs@.len() as int) =~= s@);
    parse_isize_in(&cs, 0, cs.len())
}

/// Reads `s` as an unsigned decimal number that fits `usize`.
pub fn parse_usize(s: &str) -> (out: Option<usize>)
    ensures
        out == fit_usize(parse_unsigned(s@)),
{
    let cs = to_chars(s);
    assert(cs@.subrange(0, cs@.len() as int) =~= s@);
    parse_usize_in(&cs, 0, cs.len())
}

// ---------------------------------------------------------------------------
// Delimited fields
// ---------------------------------------------------------------------------

/// The views of a sequence of strings.
pub open spec fn texts(v: Seq<String>) -> Seq<Seq<char>> {
    Seq::new(v.len(), |i: int| v[i]@)
}

/// The fields of `s` between occurrences of `sep`. There is always at least
/// one field; `n` separators give `n + 1` fields, empty ones included.
pub open spec fn split<T>(s: Seq<T>, sep: T) -> Seq<Seq<T>>
    decreases s.len(),
{
    if s.len() == 0 {
        seq![Seq::<T>::empty()]
    } else {
        let init = split(s.drop_last(), sep);
        if s.last() == sep {
            init.push(Seq::<T>::empty())
        } else {
            init.drop_last().push(init.last().push(s.last()))
        }
    }
}

/// The fields with `sep` between each two neighbours.
pub open spec fn join<T>(fields: Seq<Seq<T>>, sep: T) -> Seq<T>
    decreases fields.len(),
{
    if fields.len() == 0 {
        Seq::<T>::empty()
    } else if fields.len() == 1 {
        fields[0]
    } else {
        join(fields.drop_last(), sep) + seq![sep] + fields.last()
    }
}

/// The fields with `sep` after each of them.
pub open spec fn terminated<T>(fields: Seq<Seq<T>>, sep: T) -> Seq<T>
    decreases fields.len(),
{
    if fields.len() == 0 {
        Seq::<T>::empty()
    } else {
        terminated(fields.drop_last(), sep) + fields.last() + seq![sep]
    }
}

/// Whether no field holds the separator.
pub open spec fn sep_free<T>(fields: Seq<Seq<T>>, sep: T) -> bool {
    forall|i: int| 0 <= i < fields.len() ==> !(#[trigger] fields[i]).contains(sep)
}

/// Splitting gives at least one field, none of them holds the separator, and
/// joining them gives the text back.
pub proof fn lemma_split_join<T>(s: Seq<T>, sep: T)
    ensures
        split(s, sep).len() >= 1,
        sep_free(split(s, sep), sep),
        join(split(s, sep), sep) == s,
    decreases s.len(),
{
    if s.len() == 0 {
        assert(join(split(s, sep), sep) =~= s);
    } else {
        let init = split(s.drop_last(), sep);
        lemma_split_join(s.drop_last(), sep);
        let out = split(s, sep);
        if s.last() == sep {
            assert(out.drop_last() =~= init);
            assert(join(out, sep) =~= s);
        } else {
            let f = init.last().push(s.last());
            assert(out.last() == f);
            assert forall|i: int| 0 <= i < out.len() implies !(#[trigger] out[i]).contains(
                sep,
            ) by {
                if i < out.len() - 1 {
                    assert(out[i] == init[i]);
                } else {
                    assert forall|j: int| 0 <= j < f.len() implies f[j] != sep by {
                        if j < f.len() - 1 {
                            assert(init.last()[j] == f[j]);
                            assert(init.last().contains(f[j]));
                        }
                    }
                }
            }
            if init.len() == 1 {
                assert(join(init, sep) == init[0]);
                assert(join(out, sep) =~= s);
            } else {
                assert(out.drop_last() =~= init.drop_last());
                assert(join(out, sep) =~= join(init, sep).push(s.last()));
                assert(join(out, sep) =~= s);
            }
        }
    }
}

/// Splitting `a`, a separator and a text without separators gives the fields
/// of `a` and then that text.
pub proof fn lemma_split_append<T>(a: Seq<T>, b: Seq<T>, sep: T)
    requires
        !b.contains(sep),
    ensures
        split(a + seq![sep] + b, sep) == split(a, sep).push(b),
    decreases b.len(),
{
    let s = a + seq![sep] + b;
    if b.len() == 0 {
        assert(s.drop_last() =~= a);
        assert(b =~= Seq::<T>::empty());
    } else {
        let b0 = b.drop_last();
        assert forall|j: int| 0 <= j < b0.len() implies b0[j] != sep by {
            assert(b.contains(b[j]));
        }
        lemma_split_append(a, b0, sep);
        assert(s.drop_last() =~= a + seq![sep] + b0);
        assert(b.contains(b.last()));
        assert(s.last() == b.last());
        let init = split(a, sep).push(b0);
        assert(init.drop_last() =~= split(a, sep));
        assert(init.last().push(s.last()) =~= b);
    }
}

/// Splitting what `join` made of separator-free fields gives the fields back.
pub proof fn lemma_split_of_join<T>(fields: Seq<Seq<T>>, sep: T)
    requires
        fields.len() >= 1,
        sep_free(fields, sep),
    ensures
        split(join(fields, sep), sep) == fields,
    decreases fields.len(),
{
    if fields.len() == 1 {
        let f = fields[0];
        assert(!f.contains(sep));
        lemma_split_plain(f, sep);
        assert(seq![f] =~= fields);
    } else {
        let init = fields.drop_last();
        assert(sep_free(init, sep)) by {
            assert forall|i: int| 0 <= i < init.len() implies !(#[trigger] init[i]).contains(
                sep,
            ) by {
                assert(init[i] == fields[i]);
            }
        }
        lemma_split_of_join(init, sep);
        assert(!fields.last().contains(sep));
        lemma_split_append(join(init, sep), fields.last(), sep);
        assert(init.push(fields.last()) =~= fields);
    }
}

/// A text without separators is its own single field.
pub proof fn lemma_split_plain<T>(f: Seq<T>, sep: T)
    requires
        !f.contains(sep),
    ensures
        split(f, sep) == seq![f],
    decreases f.len(),
{
    if f.len() == 0 {
        assert(f =~= Seq::<T>::empty());
    } else {
        let f0 = f.drop_last();
        assert forall|j: int| 0 <= j < f0.len() implies f0[j] != sep by {
            assert(f.contains(f[j]));
        }
        lemma_split_plain(f0, sep);
        assert(f.contains(f.last()));
        let init = seq![f0];
        assert(f0.push(f.last()) =~= f);
        assert(init.drop_last().push(init.last().push(f.last())) =~= seq![f]);
    }
}

/// Terminating each of one or more fields is joining them and adding one
/// separator at the end.
pub proof fn lemma_terminated_join<T>(fields: Seq<Seq<T>>, sep: T)
    requires
        fields.len() >= 1,
    ensures
        terminated(fields, sep) == join(fields, sep) + seq![sep],
    decreases fields.len(),
{
    if fields.len() == 1 {
        assert(fields.drop_last() =~= Seq::<Seq<T>>::empty());
        assert(terminated(fields.drop_last(), sep) =~= Seq::<T>::empty());
        assert(terminated(fields, sep) =~= join(fields, sep) + seq![sep]);
    } else {
        lemma_terminated_join(fields.drop_last(), sep);
        assert(terminated(fields, sep) =~= join(fields, sep) + seq![sep]);
    }
}

/// What is in no field, and is not the separator, is not in the joined text.
pub proof fn lemma_join_lacks<T>(fields: Seq<Seq<T>>, sep: T, c: T)
    requires
        c != sep,
        sep_free(fields, c),
    ensures
        !join(fields, sep).contains(c),
    decreases fields.len(),
{
    if fields.len() == 1 {
        assert(!fields[0].contains(c));
    } else if fields.len() > 1 {
        let init = fields.drop_last();
        assert(sep_free(init, c)) by {
            assert forall|i: int| 0 <= i < init.len() implies !(#[trigger] init[i]).contains(c) by {
                assert(init[i] == fields[i]);
            }
        }
        lemma_join_lacks(init, sep, c);
        let a = join(init, sep);
        let b = fields.last();
        assert(!b.contains(c));
        let all = join(fields, sep);
        assert forall|k: int| 0 <= k < all.len() implies all[k] != c by {
            if k < a.len() {
                assert(a.contains(all[k]));
            } else if k > a.len() {
                assert(b[k - a.len() - 1] == all[k]);
                assert(b.contains(all[k]));
            }
        }
    }
}

/// Whether each span lies inside `from..to`, its start not after its end.
pub open spec fn spans_within(spans: Seq<(usize, usize)>, from: int, to: int) -> bool {
    forall|i: int|
        0 <= i < spans.len() ==> from <= (#[trigger] spans[i]).0 <= spans[i].1 <= to
}

/// The texts that the spans cut out of `cs`.
pub open spec fn span_texts(cs: Seq<char>, spans: Seq<(usize, usize)>) -> Seq<Seq<char>> {
    Seq::new(spans.len(), |i: int| cs.subrange(spans[i].0 as int, spans[i].1 as int))
}

/// Where the fields of `cs[from..to]` between occurrences of `sep` start and
/// end.
pub fn split_spans(cs: &Vec<char>, from: usize, to: usize, sep: char) -> (out: Vec<(usize, usize)>)
    requires
        from <= to <= cs.len(),
    ensures
        spans_within(out@, from as int, to as int),
        span_texts(cs@, out@) == split(cs@.subrange(from as int, to as int), sep),
{
    let ghost body = cs@.subrange(from as int, to as int);
    let mut out: Vec<(usize, usize)> = Vec::new();
    let mut start: usize = from;
    let mut i: usize = from;
    assert(body.take(0) =~= Seq::<char>::empty());
    assert(cs@.subrange(start as int, i as int) =~= Seq::<char>::empty());
    assert(split(body.take(0), sep) =~= seq![Seq::<char>::empty()]);
    assert(span_texts(cs@, out@).push(cs@.subrange(start as int, i as int)) =~= split(
        body.take(0),
        sep,
    ));
    while i < to
        invariant
            from <= start <= i <= to <= cs.len(),
            body == cs@.subrange(from as int, to as int),
            spans_within(out@, from as int, to as int),
            span_texts(cs@, out@).push(cs@.subrange(start as int, i as int)) == split(
                body.take(i - from),
                sep,
            ),
        decreases to - i,
    {
        let c = cs[i];
        let ghost k = i - from;
        let ghost before = span_texts(cs@, out@).push(cs@.subrange(start as int, i as int));
        assert(body.take(k + 1).drop_last() =~= body.take(k));
        assert(body.take(k + 1).last() == c);
        if c == sep {
            out.push((start, i));
            start = i + 1;
            assert(span_texts(cs@, out@) =~= before);
            assert(cs@.subrange(start as int, i + 1) =~= Seq::<char>::empty());
        } else {
            assert(cs@.subrange(start as int, i + 1) =~= before.last().push(c));
            assert(span_texts(cs@, out@).push(cs@.subrange(start as int, i + 1))
                =~= before.drop_last().push(before.last().push(c)));
        }
        i += 1;
    }
    assert(body.take(to - from) =~= body);
    out.push((start, to));
    assert(span_texts(cs@, out@) =~= split(body, sep));
    out
}

/// The fields as one string, with `sep` between each two neighbours.
pub fn join_strings(fields: &Vec<String>, sep: char) -> (out: String)
    ensures
        out@ == join(texts(fields@), sep),
{
    let mut out = String::new();
    let ghost all = texts(fields@);
    let mut i: usize = 0;
    assert(join(all.take(0), sep) =~= Seq::<char>::empty());
    while i < fields.len()
        invariant
            0 <= i <= fields.len(),
            all == texts(fields@),
            out@ == join(all.take(i as int), sep),
        decreases fields.len() - i,
    {
        let ghost before = out@;
        if i > 0 {
            push_char(&mut out, sep);
        }
        out.append(fields[i].as_str());
        proof {
            let next = all.take(i + 1);
            assert(next.drop_last() =~= all.take(i as int));
            assert(next.last() == fields@[i as int]@);
            if i == 0 {
                assert(out@ =~= next[0]);
            }
        }
        i += 1;
    }
    assert(all.take(fields.len() as int) =~= all);
    out
}

/// `"1"` for true and `"0"` for false.
pub open spec fn flag_text(b: bool) -> Seq<char> {
    if b {
        seq!['1']
    } else {
        seq!['0']
    }
}

/// `"1"` for true and `"0"` for false.
pub fn flag_string(b: bool) -> (out: String)
    ensures
        out@ == flag_text(b),
{
    let mut out = String::new();
    push_char(&mut out, if b {
        '1'
    } else {
        '0'
    });
    assert(out@ =~= flag_text(b));
    out
}

/// The decimal writing of `i` as a string of its own.
pub fn signed_decimal_string(i: i64) -> (out: String)
    ensures
        out@ == signed_decimal(i as int),
{
    let mut out = String::new();
    push_signed_decimal(&mut out, i);
    assert(Seq::<char>::empty() + signed_decimal(i as int) =~= signed_decimal(i as int));
    out
}

/// A copy of `s`.
pub fn copy_string(s: &String) -> (out: String)
    ensures
        out@ == s@,
{
    s.clone()
}

/// Whether two texts hold the same characters.
pub fn same_text(a: &str, b: &str) -> (eq: bool)
    ensures
        eq == (a@ == b@),
{
    let x = to_chars(a);
    let y = to_chars(b);
    if x.len() != y.len() {
        return false;
    }
    let mut i: usize = 0;
    while i < x.len()
        invariant
            0 <= i <= x.len(),
            x.len() == y.len(),
            x@ == a@,
            y@ == b@,
            forall|j: int| 0 <= j < i ==> x@[j] == y@[j],
        decreases x.len() - i,
    {
        if x[i] != y[i] {
            return false;
        }
        i += 1;
    }
    assert(a@ =~= b@);
    true
}

} // verus!
