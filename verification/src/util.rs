//! Character-sequence primitives shared by all account-file formats:
//! separator splitting and joining, decimal numerals, and trailing-blank
//! trimming, each with executable form and full functional specification.

use vstd::prelude::*;
use vstd::string::StrSliceExecFns;
use vstd::string::StringExecFns;

use crate::entfiles::ReadEntryError;
use crate::entfiles::WriteError;

verus! {

// ---------------------------------------------------------------------
// Splitting and joining on a separator character
// ---------------------------------------------------------------------

/// No occurrence of `sep` anywhere in `s`.
pub open spec fn free_of(s: Seq<char>, sep: char) -> bool {
    forall|i: int| 0 <= i < s.len() ==> s[i] != sep
}

/// The fields obtained by cutting `s` at every occurrence of `sep`.
///
/// There is always exactly one field more than there are separators; in
/// particular the empty sequence yields a single empty field.
pub open spec fn split_spec(s: Seq<char>, sep: char) -> Seq<Seq<char>>
    decreases s.len(),
{
    if s.len() == 0 {
        seq![Seq::<char>::empty()]
    } else if s.last() == sep {
        split_spec(s.drop_last(), sep).push(Seq::<char>::empty())
    } else {
        let p = split_spec(s.drop_last(), sep);
        p.update(p.len() - 1, p.last().push(s.last()))
    }
}

/// The inverse of `split_spec`: the fields glued back together with `sep`
/// between consecutive fields.
pub open spec fn join_spec(fields: Seq<Seq<char>>, sep: char) -> Seq<char>
    decreases fields.len(),
{
    if fields.len() == 0 {
        Seq::<char>::empty()
    } else if fields.len() == 1 {
        fields[0]
    } else {
        join_spec(fields.drop_last(), sep) + seq![sep] + fields.last()
    }
}

/// Splitting always produces at least one field.
pub proof fn lemma_split_len(s: Seq<char>, sep: char)
    ensures
        split_spec(s, sep).len() >= 1,
    decreases s.len(),
{
    if s.len() > 0 {
        lemma_split_len(s.drop_last(), sep);
    }
}

/// A separator-free sequence splits into exactly itself.
pub proof fn lemma_split_free(s: Seq<char>, sep: char)
    requires
        free_of(s, sep),
    ensures
        split_spec(s, sep) =~~= seq![s],
    decreases s.len(),
{
    if s.len() > 0 {
        assert(s.last() != sep);
        assert(free_of(s.drop_last(), sep));
        lemma_split_free(s.drop_last(), sep);
        assert(s.drop_last().push(s.last()) =~= s);
    }
}

/// Splitting distributes over a separator: cutting `a + sep + b` yields the
/// cuts of `a` followed by the cuts of `b`.
pub proof fn lemma_split_append(a: Seq<char>, b: Seq<char>, sep: char)
    ensures
        split_spec(a + seq![sep] + b, sep) =~~= split_spec(a, sep) + split_spec(b, sep),
    decreases b.len(),
{
    lemma_split_len(a, sep);
    lemma_split_len(b, sep);
    if b.len() == 0 {
        let s = a + seq![sep] + b;
        assert(s =~= a.push(sep));
        assert(s.drop_last() =~= a);
        assert(split_spec(s, sep) == split_spec(a, sep).push(Seq::<char>::empty()));
    } else {
        let b0 = b.drop_last();
        let c = b.last();
        let s = a + seq![sep] + b;
        assert(s.last() == c);
        assert(s.drop_last() =~= a + seq![sep] + b0);
        lemma_split_append(a, b0, sep);
        lemma_split_len(b0, sep);
        if c == sep {
            assert(split_spec(s, sep) == split_spec(a + seq![sep] + b0, sep).push(
                Seq::<char>::empty(),
            ));
        } else {
            let p = split_spec(a + seq![sep] + b0, sep);
            let q = split_spec(b0, sep);
            assert(p == split_spec(a, sep) + q);
            assert(p.last() == q.last());
            assert(split_spec(s, sep) == p.update(p.len() - 1, p.last().push(c)));
            assert(split_spec(b, sep) == q.update(q.len() - 1, q.last().push(c)));
        }
    }
}

/// Round trip: joining separator-free fields and splitting again recovers
/// exactly the original fields.
pub proof fn lemma_split_join(fields: Seq<Seq<char>>, sep: char)
    requires
        fields.len() >= 1,
        forall|i: int| 0 <= i < fields.len() ==> free_of(#[trigger] fields[i], sep),
    ensures
        split_spec(join_spec(fields, sep), sep) =~~= fields,
    decreases fields.len(),
{
    if fields.len() == 1 {
        lemma_split_free(fields[0], sep);
    } else {
        let init = fields.drop_last();
        lemma_split_join(init, sep);
        lemma_split_free(fields.last(), sep);
        lemma_split_append(join_spec(init, sep), fields.last(), sep);
        assert(split_spec(join_spec(init, sep), sep) + split_spec(fields.last(), sep) =~~= init
            + seq![fields.last()]);
        assert(init + seq![fields.last()] =~~= fields);
    }
}

/// Freedom from a character is preserved by concatenation.
pub proof fn lemma_free_concat(a: Seq<char>, b: Seq<char>, c: char)
    requires
        free_of(a, c),
        free_of(b, c),
    ensures
        free_of(a + b, c),
{
    assert forall|i: int| 0 <= i < (a + b).len() implies (a + b)[i] != c by {
        if i < a.len() {
            assert((a + b)[i] == a[i]);
        } else {
            assert((a + b)[i] == b[i - a.len()]);
        }
    }
}

/// Joined separator-free fields contain no occurrence of any other
/// character that is absent from every field and distinct from the
/// separator's role: concretely, a character that is not the separator and
/// appears in no field does not appear in the joined text.
pub proof fn lemma_join_free(fields: Seq<Seq<char>>, sep: char, other: char)
    requires
        sep != other,
        forall|i: int| 0 <= i < fields.len() ==> free_of(#[trigger] fields[i], other),
    ensures
        free_of(join_spec(fields, sep), other),
    decreases fields.len(),
{
    if fields.len() > 1 {
        lemma_join_free(fields.drop_last(), sep, other);
    }
}

/// Joining two or more fields always yields at least one character.
pub proof fn lemma_join_two_nonempty(fields: Seq<Seq<char>>, sep: char)
    requires
        fields.len() >= 2,
    ensures
        join_spec(fields, sep).len() >= 1,
{
}

// ---------------------------------------------------------------------
// Decimal numerals
// ---------------------------------------------------------------------

/// `c` is an ASCII decimal digit.
pub open spec fn is_dec_digit(c: char) -> bool {
    '0' as u32 <= c as u32 <= '9' as u32
}

/// The numeric value of a digit character.
pub open spec fn dec_digit_val(c: char) -> nat {
    (c as u32 - '0' as u32) as nat
}

/// The digit character for a value below ten.
pub open spec fn dec_digit_char(d: nat) -> char {
    if d == 0 {
        '0'
    } else if d == 1 {
        '1'
    } else if d == 2 {
        '2'
    } else if d == 3 {
        '3'
    } else if d == 4 {
        '4'
    } else if d == 5 {
        '5'
    } else if d == 6 {
        '6'
    } else if d == 7 {
        '7'
    } else if d == 8 {
        '8'
    } else {
        '9'
    }
}

/// Every character of `s` is a decimal digit.
pub open spec fn all_dec_digits(s: Seq<char>) -> bool {
    forall|i: int| 0 <= i < s.len() ==> is_dec_digit(#[trigger] s[i])
}

/// The value of `s` read as a big-endian decimal numeral.
pub open spec fn dec_val(s: Seq<char>) -> nat
    decreases s.len(),
{
    if s.len() == 0 {
        0
    } else {
        dec_val(s.drop_last()) * 10 + dec_digit_val(s.last())
    }
}

/// `s` is a numeral that a 32-bit unsigned field accepts: non-empty, all
/// digits, and value at most `u32::MAX`.
pub open spec fn is_u32_numeral(s: Seq<char>) -> bool {
    s.len() > 0 && all_dec_digits(s) && dec_val(s) <= u32::MAX
}

/// The canonical (no leading zero) decimal numeral of `n`.
pub open spec fn dec_str_of(n: nat) -> Seq<char>
    decreases n,
{
    if n < 10 {
        seq![dec_digit_char(n)]
    } else {
        dec_str_of(n / 10).push(dec_digit_char(n % 10))
    }
}

/// The canonical numeral of `n` is made of digits and reads back as `n`.
pub proof fn lemma_dec_str_of(n: nat)
    ensures
        dec_str_of(n).len() >= 1,
        all_dec_digits(dec_str_of(n)),
        dec_val(dec_str_of(n)) == n,
    decreases n,
{
    if n < 10 {
        let s = dec_str_of(n);
        assert(s.drop_last() =~= Seq::<char>::empty());
        assert(dec_val(s) == dec_val(s.drop_last()) * 10 + dec_digit_val(s.last()));
    } else {
        lemma_dec_str_of(n / 10);
        let s = dec_str_of(n);
        assert(s.drop_last() == dec_str_of(n / 10));
        assert(dec_digit_val(dec_digit_char(n % 10)) == n % 10);
        assert(dec_val(s) == (n / 10) * 10 + n % 10);
        assert((n / 10) * 10 + n % 10 == n) by {
            vstd::arithmetic::div_mod::lemma_fundamental_div_mod(n as int, 10);
        }
    }
}

/// Extending a digit string on the right never decreases its value.
pub proof fn lemma_dec_val_prefix(s: Seq<char>, i: int)
    requires
        0 <= i <= s.len(),
    ensures
        dec_val(s.take(i)) <= dec_val(s),
    decreases s.len() - i,
{
    if i < s.len() {
        lemma_dec_val_prefix(s, i + 1);
        let t = s.take(i + 1);
        assert(t.drop_last() =~= s.take(i));
        assert(dec_val(t) == dec_val(s.take(i)) * 10 + dec_digit_val(t.last()));
        assert(dec_val(s.take(i)) * 10 >= dec_val(s.take(i))) by (nonlinear_arith);
    } else {
        assert(s.take(i) =~= s);
    }
}

// ---------------------------------------------------------------------
// Trailing blanks
// ---------------------------------------------------------------------

/// `c` is one of the ASCII blank characters that are stripped from the end
/// of a line before it is parsed.
pub open spec fn is_blank_char(c: char) -> bool {
    c == ' ' || c == '\t' || c == '\n' || c == '\r' || c == '\x0b' || c == '\x0c'
}

/// `s` with every trailing blank character removed.
pub open spec fn trim_end_spec(s: Seq<char>) -> Seq<char>
    decreases s.len(),
{
    if s.len() > 0 && is_blank_char(s.last()) {
        trim_end_spec(s.drop_last())
    } else {
        s
    }
}

/// Executable test for the blank characters of `is_blank_char`.
pub fn is_blank(c: char) -> (r: bool)
    ensures
        r == is_blank_char(c),
{
    c == ' ' || c == '\t' || c == '\n' || c == '\r' || c == '\x0b' || c == '\x0c'
}

/// Strips every trailing blank character from `s`.
pub fn trim_end_blanks<'a>(s: &'a str) -> (r: &'a str)
    ensures
        r@ == trim_end_spec(s@),
{
    let mut end: usize = s.unicode_len();
    proof {
        assert(s@.take(end as int) =~= s@);
    }
    loop
        invariant
            end <= s@.len(),
            trim_end_spec(s@) == trim_end_spec(s@.take(end as int)),
        ensures
            end <= s@.len(),
            trim_end_spec(s@) == s@.take(end as int),
        decreases end,
    {
        if end == 0 {
            proof {
                assert(s@.take(0) =~= Seq::<char>::empty());
            }
            break ;
        }
        let c = s.get_char(end - 1);
        if !is_blank(c) {
            proof {
                let t = s@.take(end as int);
                assert(t.last() == s@[end - 1]);
            }
            break ;
        }
        proof {
            let t = s@.take(end as int);
            assert(t.last() == s@[end - 1]);
            assert(t.drop_last() =~= s@.take(end - 1));
        }
        end = end - 1;
    }
    s.substring_char(0, end)
}

/// Cuts `s` at every occurrence of `sep`, per `split_spec`.
pub fn split_str<'a>(s: &'a str, sep: char) -> (r: Vec<&'a str>)
    ensures
        r.deep_view() == split_spec(s@, sep),
{
    let len = s.unicode_len();
    let mut r: Vec<&'a str> = Vec::new();
    let mut start: usize = 0;
    let mut i: usize = 0;
    while i < len
        invariant
            start <= i <= len,
            len == s@.len(),
            split_spec(s@.take(i as int), sep) =~~= r.deep_view().push(
                s@.subrange(start as int, i as int),
            ),
        decreases len - i,
    {
        let ghost prev_r = r.deep_view();
        let ghost cur = s@.subrange(start as int, i as int);
        let c = s.get_char(i);
        if c == sep {
            let f = s.substring_char(start, i);
            r.push(f);
            start = i + 1;
        }
        i = i + 1;
        proof {
            let t = s@.take(i as int);
            assert(t.drop_last() =~= s@.take(i - 1));
            assert(t.last() == s@[i - 1] == c);
            if c == sep {
                assert(r.deep_view() =~~= prev_r.push(cur));
                assert(split_spec(t, sep) =~~= split_spec(t.drop_last(), sep).push(
                    Seq::<char>::empty(),
                ));
                assert(s@.subrange(start as int, i as int) =~= Seq::<char>::empty());
            } else {
                let p = split_spec(t.drop_last(), sep);
                assert(p.last() == cur);
                assert(split_spec(t, sep) =~~= p.update(p.len() - 1, p.last().push(c)));
                assert(cur.push(c) =~= s@.subrange(start as int, i as int));
                assert(p.update(p.len() - 1, cur.push(c)) =~~= r.deep_view().push(
                    s@.subrange(start as int, i as int),
                ));
            }
        }
    }
    let ghost prev_r = r.deep_view();
    let f = s.substring_char(start, len);
    r.push(f);
    proof {
        assert(s@.take(len as int) =~= s@);
        assert(r.deep_view() =~~= prev_r.push(s@.subrange(start as int, len as int)));
        assert(r.deep_view() =~~= split_spec(s@, sep));
    }
    r
}

/// Parses `s` as a decimal numeral for a 32-bit unsigned integer.
///
/// Succeeds exactly on the numerals admitted by `is_u32_numeral`; in
/// particular the empty string, any non-digit character, and any value
/// above `u32::MAX` are rejected.
pub fn parse_u32_str(s: &str) -> (r: Option<u32>)
    ensures
        match r {
            Some(v) => is_u32_numeral(s@) && v as nat == dec_val(s@),
            None => !is_u32_numeral(s@),
        },
{
    let len = s.unicode_len();
    if len == 0 {
        return None;
    }
    let mut acc: u32 = 0;
    let mut i: usize = 0;
    while i < len
        invariant
            i <= len,
            len == s@.len(),
            all_dec_digits(s@.take(i as int)),
            acc as nat == dec_val(s@.take(i as int)),
        decreases len - i,
    {
        let c = s.get_char(i);
        let v = c as u32;
        if v < 48 || v > 57 {
            proof {
                assert(!is_dec_digit(s@[i as int]));
            }
            return None;
        }
        let d = v - 48;
        proof {
            assert(is_dec_digit(s@[i as int]));
            assert(dec_digit_val(s@[i as int]) == d as nat);
        }
        if acc > (u32::MAX - d) / 10 {
            proof {
                let q = ((u32::MAX - d) / 10) as nat;
                assert((u32::MAX - d) as nat == q * 10 + ((u32::MAX - d) as nat % 10)) by {
                    vstd::arithmetic::div_mod::lemma_fundamental_div_mod(
                        (u32::MAX - d) as int,
                        10,
                    );
                }
                assert(acc as nat >= q + 1);
                assert((acc as nat) * 10 >= (q + 1) * 10) by (nonlinear_arith)
                    requires
                        acc as nat >= q + 1,
                ;
                let t = s@.take(i + 1);
                assert(t.drop_last() =~= s@.take(i as int));
                assert(t.last() == s@[i as int]);
                assert(dec_val(t) == (acc as nat) * 10 + d as nat);
                lemma_dec_val_prefix(s@, i + 1);
                assert(dec_val(s@) > u32::MAX);
            }
            return None;
        }
        proof {
            let q = ((u32::MAX - d) / 10) as nat;
            assert((u32::MAX - d) as nat == q * 10 + ((u32::MAX - d) as nat % 10)) by {
                vstd::arithmetic::div_mod::lemma_fundamental_div_mod((u32::MAX - d) as int, 10);
            }
            assert((acc as nat) * 10 <= q * 10) by (nonlinear_arith)
                requires
                    acc as nat <= q,
            ;
            assert((acc as nat) * 10 + (d as nat) <= u32::MAX as nat);
        }
        let ghost old_i = i as int;
        acc = acc * 10 + d;
        i = i + 1;
        proof {
            let t = s@.take(i as int);
            assert(t.drop_last() =~= s@.take(old_i));
            assert(t.last() == s@[old_i]);
            assert(dec_val(t) == dec_val(s@.take(old_i)) * 10 + dec_digit_val(s@[old_i]));
        }
    }
    proof {
        assert(s@.take(len as int) =~= s@);
    }
    Some(acc)
}

/// The one-character string for a digit value below ten.
pub fn digit_str(d: u8) -> (r: &'static str)
    requires
        d < 10,
    ensures
        r@ == seq![dec_digit_char(d as nat)],
{
    if d == 0 {
        proof {
            reveal_strlit("0");
            assert("0"@ =~= seq!['0']);
        }
        "0"
    } else if d == 1 {
        proof {
            reveal_strlit("1");
            assert("1"@ =~= seq!['1']);
        }
        "1"
    } else if d == 2 {
        proof {
            reveal_strlit("2");
            assert("2"@ =~= seq!['2']);
        }
        "2"
    } else if d == 3 {
        proof {
            reveal_strlit("3");
            assert("3"@ =~= seq!['3']);
        }
        "3"
    } else if d == 4 {
        proof {
            reveal_strlit("4");
            assert("4"@ =~= seq!['4']);
        }
        "4"
    } else if d == 5 {
        proof {
            reveal_strlit("5");
            assert("5"@ =~= seq!['5']);
        }
        "5"
    } else if d == 6 {
        proof {
            reveal_strlit("6");
            assert("6"@ =~= seq!['6']);
        }
        "6"
    } else if d == 7 {
        proof {
            reveal_strlit("7");
            assert("7"@ =~= seq!['7']);
        }
        "7"
    } else if d == 8 {
        proof {
            reveal_strlit("8");
            assert("8"@ =~= seq!['8']);
        }
        "8"
    } else {
        proof {
            reveal_strlit("9");
            assert("9"@ =~= seq!['9']);
        }
        "9"
    }
}

/// The digit characters of `ds` in reverse order, least significant first
/// in `ds`, most significant first in the result.
pub open spec fn rev_digit_chars(ds: Seq<u8>) -> Seq<char>
    decreases ds.len(),
{
    if ds.len() == 0 {
        Seq::<char>::empty()
    } else {
        seq![dec_digit_char(ds.last() as nat)] + rev_digit_chars(ds.drop_last())
    }
}

/// Reversing a digit list with its head split off appends that head last.
proof fn lemma_rev_digit_chars_first(ds: Seq<u8>)
    requires
        ds.len() > 0,
    ensures
        rev_digit_chars(ds) =~= rev_digit_chars(ds.drop_first()) + seq![
            dec_digit_char(ds.first() as nat),
        ],
    decreases ds.len(),
{
    if ds.len() == 1 {
        assert(ds.drop_last() =~= Seq::<u8>::empty());
        assert(ds.drop_first() =~= Seq::<u8>::empty());
        assert(ds.first() == ds.last());
    } else {
        lemma_rev_digit_chars_first(ds.drop_last());
        assert(ds.drop_last().drop_first() =~= ds.drop_first().drop_last());
        assert(ds.drop_last().first() == ds.first());
        assert(ds.drop_first().last() == ds.last());
        assert(rev_digit_chars(ds.drop_first()) =~= seq![dec_digit_char(ds.last() as nat)]
            + rev_digit_chars(ds.drop_first().drop_last()));
    }
}

/// Renders `n` as its canonical decimal numeral.
pub fn u32_to_string(n: u32) -> (r: String)
    ensures
        r@ == dec_str_of(n as nat),
{
    let mut digits: Vec<u8> = Vec::new();
    let mut m = n;
    proof {
        assert(digits@ =~= Seq::<u8>::empty());
        assert(rev_digit_chars(digits@) =~= Seq::<char>::empty());
        assert(dec_str_of(n as nat) + rev_digit_chars(digits@) =~= dec_str_of(n as nat));
    }
    loop
        invariant
            ({
                let tail = rev_digit_chars(digits@);
                if m > 0 {
                    dec_str_of(n as nat) == dec_str_of(m as nat) + tail
                } else if digits@.len() > 0 {
                    dec_str_of(n as nat) == tail
                } else {
                    n == 0
                }
            }),
            forall|k: int| 0 <= k < digits@.len() ==> #[trigger] digits@[k] < 10,
        ensures
            m == 0,
            digits@.len() > 0,
            dec_str_of(n as nat) == rev_digit_chars(digits@),
            forall|k: int| 0 <= k < digits@.len() ==> #[trigger] digits@[k] < 10,
        decreases m,
    {
        if m == 0 {
            if digits.len() == 0 {
                // n itself is zero: emit its single digit
                digits.push(0);
                proof {
                    assert(digits@.drop_last() =~= Seq::<u8>::empty());
                    assert(rev_digit_chars(Seq::<u8>::empty()) =~= Seq::<char>::empty());
                    assert(rev_digit_chars(digits@) =~= seq![dec_digit_char(0)]);
                }
            }
            break ;
        }
        let ghost old_m = m as nat;
        let ghost old_digits = digits@;
        let d = (m % 10) as u8;
        digits.push(d);
        m = m / 10;
        proof {
            assert(digits@.drop_last() =~= old_digits);
            assert(digits@.last() == d);
            assert(rev_digit_chars(digits@) =~= seq![dec_digit_char(old_m % 10)]
                + rev_digit_chars(old_digits));
            if m > 0 {
                assert(old_m >= 10);
                assert(dec_str_of(old_m) == dec_str_of(old_m / 10).push(
                    dec_digit_char(old_m % 10),
                ));
                assert(dec_str_of(m as nat) + rev_digit_chars(digits@) =~= (dec_str_of(
                    old_m / 10,
                ).push(dec_digit_char(old_m % 10))) + rev_digit_chars(old_digits));
            } else {
                assert(old_m < 10);
                assert(dec_str_of(old_m) == seq![dec_digit_char(old_m)]);
                assert(rev_digit_chars(digits@) =~= dec_str_of(old_m) + rev_digit_chars(
                    old_digits,
                ));
            }
        }
    }
    let mut out = String::new();
    let mut j: usize = digits.len();
    while j > 0
        invariant
            j <= digits@.len(),
            out@ == rev_digit_chars(digits@.skip(j as int)),
            forall|k: int| 0 <= k < digits@.len() ==> #[trigger] digits@[k] < 10,
        decreases j,
    {
        let ghost old_j = j as int;
        j = j - 1;
        let piece = digit_str(digits[j]);
        out.append(piece);
        proof {
            let rest = digits@.skip(old_j);
            let now = digits@.skip(j as int);
            assert(now.first() == digits@[j as int]);
            assert(now.drop_first() =~= rest);
            lemma_rev_digit_chars_first(now);
        }
    }
    proof {
        assert(digits@.skip(0) =~= digits@);
    }
    out
}

// ---------------------------------------------------------------------
// Field-level helpers shared by the account schemas
// ---------------------------------------------------------------------

/// Parses a string that is allowed to be empty: the empty string means the
/// value is absent, anything else must be a 32-bit decimal numeral.
pub fn maybe_parse(input: &str) -> (r: Result<Option<u32>, ReadEntryError>)
    ensures
        match r {
            Ok(opt) => match opt {
                Some(v) => is_u32_numeral(input@) && v as nat == dec_val(input@),
                None => input@.len() == 0,
            },
            Err(e) => e == ReadEntryError::ParseInt && input@.len() > 0 && !is_u32_numeral(
                input@,
            ),
        },
{
    if input.is_empty() {
        Ok(None)
    } else {
        match parse_u32_str(input) {
            Some(v) => Ok(Some(v)),
            None => Err(ReadEntryError::ParseInt),
        }
    }
}

/// The member list denoted by a comma-separated field: the empty field
/// denotes no members at all, not one empty member name.
pub open spec fn members_of(s: Seq<char>) -> Seq<Seq<char>> {
    if s.len() == 0 {
        Seq::<Seq<char>>::empty()
    } else {
        split_spec(s, ',')
    }
}

/// Splits a comma-separated string into a vector of strings.
///
/// An empty input yields an empty vector, as opposed to a vector holding a
/// single empty string; every other input splits at each comma, so leading
/// and trailing commas contribute empty elements.
pub fn split_csv_str(input: &str) -> (r: Vec<String>)
    ensures
        r.deep_view() == members_of(input@),
{
    let mut out: Vec<String> = Vec::new();
    if input.is_empty() {
        proof {
            assert(out.deep_view() =~~= members_of(input@));
        }
        return out;
    }
    let parts = split_str(input, ',');
    let mut i: usize = 0;
    while i < parts.len()
        invariant
            i <= parts@.len(),
            parts.deep_view() == split_spec(input@, ','),
            out.deep_view() =~~= parts.deep_view().take(i as int),
        decreases parts@.len() - i,
    {
        let ghost prev = out.deep_view();
        out.push(parts[i].to_owned());
        i = i + 1;
        proof {
            assert(out.deep_view() =~~= prev.push(parts@[i - 1]@));
            assert(out.deep_view() =~~= parts.deep_view().take(i as int));
        }
    }
    proof {
        assert(parts.deep_view().take(parts@.len() as int) =~~= parts.deep_view());
        assert(out.deep_view() =~~= members_of(input@));
    }
    out
}

/// Glues `items` together with a comma between consecutive items; the
/// exact inverse of `split_csv_str` for any list it can produce.
pub fn join_csv(items: &Vec<String>) -> (r: String)
    ensures
        r@ == join_spec(items.deep_view(), ','),
{
    let mut out = String::new();
    let mut i: usize = 0;
    proof {
        assert(items.deep_view().take(0) =~= Seq::<Seq<char>>::empty());
    }
    while i < items.len()
        invariant
            i <= items@.len(),
            out@ == join_spec(items.deep_view().take(i as int), ','),
        decreases items@.len() - i,
    {
        if i > 0 {
            out.append(",");
        }
        out.append(items[i].as_str());
        i = i + 1;
        proof {
            reveal_strlit(",");
            assert(","@ =~= seq![',']);
            let dv = items.deep_view();
            let t = dv.take(i as int);
            assert(t.drop_last() =~= dv.take(i - 1));
            assert(t.last() == dv[i - 1]);
            assert(dv[i - 1] == items@[i - 1]@);
            if i > 1 {
                assert(join_spec(t, ',') == join_spec(t.drop_last(), ',') + seq![','] + t.last());
                assert(out@ =~= join_spec(t, ','));
            } else {
                assert(out@ =~= join_spec(t, ','));
            }
        }
    }
    proof {
        assert(items.deep_view().take(items@.len() as int) =~= items.deep_view());
    }
    out
}

/// The textual form of an optional numeric field: absent renders as the
/// empty string, present as the canonical decimal numeral.
pub open spec fn opt_num_str(value: Option<u32>) -> Seq<char> {
    match value {
        None => Seq::<char>::empty(),
        Some(n) => dec_str_of(n as nat),
    }
}

/// Converts an optional number to a string, or the empty string if absent.
pub fn to_string_or_empty(value: Option<u32>) -> (r: String)
    ensures
        r@ == opt_num_str(value),
{
    match value {
        None => String::new(),
        Some(n) => u32_to_string(n),
    }
}

/// The error value reported when an underlying write consumed fewer bytes
/// than requested.
pub fn short_write() -> (e: WriteError)
    ensures
        e == WriteError::ShortWrite,
{
    WriteError::ShortWrite
}

} // verus!
