//! Chat-facing string helpers: escaping, trimming to a display width,
//! timestamp formatting and parsing.

use vstd::prelude::*;

verus! {

use vstd::utf8::{encode_scalar, encode_utf8};

// Decimal digits

/// Whether `c` is a decimal digit.
pub open spec fn is_digit(c: char) -> bool {
    48 <= c as int && c as int <= 57
}

/// The numeric value of a digit character.
pub open spec fn digit_value(c: char) -> int
    recommends
        is_digit(c),
{
    c as int - 48
}

/// The digit character for a value below ten.
pub open spec fn digit_char(d: int) -> char
    recommends
        0 <= d < 10,
{
    if d == 0 {
        '0'
    } else if d == 1 {
        '1'
    } else if d == 2 {
        '2'
    } else if d == 3 {
        '3'
    } else if d == 4 {
        '4'
    } else if d == 5 {
        '5'
    } else if d == 6 {
        '6'
    } else if d == 7 {
        '7'
    } else if d == 8 {
        '8'
    } else {
        '9'
    }
}

/// The decimal digits of a non-negative number, most significant first.
pub open spec fn dec_digits(n: int) -> Seq<char>
    recommends
        n >= 0,
    decreases n,
{
    if n < 10 {
        seq![digit_char(n)]
    } else {
        dec_digits(n / 10).push(digit_char(n % 10))
    }
}

/// The decimal digits of `n`, padded with a leading zero to two places.
pub open spec fn dec_digits_padded(n: int) -> Seq<char>
    recommends
        0 <= n < 100,
{
    if n < 10 {
        seq!['0'].add(dec_digits(n))
    } else {
        dec_digits(n)
    }
}

fn digit_string(d: u64) -> (r: String)
    requires
        d < 10,
    ensures
        r@ =~= seq![digit_char(d as int)],
{
    let r = if d == 0 {
        String::from_str("0")
    } else if d == 1 {
        String::from_str("1")
    } else if d == 2 {
        String::from_str("2")
    } else if d == 3 {
        String::from_str("3")
    } else if d == 4 {
        String::from_str("4")
    } else if d == 5 {
        String::from_str("5")
    } else if d == 6 {
        String::from_str("6")
    } else if d == 7 {
        String::from_str("7")
    } else if d == 8 {
        String::from_str("8")
    } else {
        String::from_str("9")
    };
    proof {
        reveal_strlit("0");
        reveal_strlit("1");
        reveal_strlit("2");
        reveal_strlit("3");
        reveal_strlit("4");
        reveal_strlit("5");
        reveal_strlit("6");
        reveal_strlit("7");
        reveal_strlit("8");
        reveal_strlit("9");
    }
    r
}

/// The decimal rendering of `n`, with no sign and no padding.
pub fn u64_digits(n: u64) -> (r: String)
    ensures
        r@ == dec_digits(n as int),
    decreases n,
{
    if n < 10 {
        let r = digit_string(n);
        proof {
            assert(r@ =~= dec_digits(n as int));
        }
        r
    } else {
        let mut r = u64_digits(n / 10);
        let last = digit_string(n % 10);
        r.append(last.as_str());
        proof {
            assert(r@ =~= dec_digits(n as int));
        }
        r
    }
}

fn two_digits(n: u64) -> (r: String)
    requires
        n < 100,
    ensures
        r@ == dec_digits_padded(n as int),
{
    if n < 10 {
        let mut r = String::from_str("0");
        let d = digit_string(n);
        r.append(d.as_str());
        proof {
            reveal_strlit("0");
            assert(r@ =~= dec_digits_padded(n as int));
        }
        r
    } else {
        u64_digits(n)
    }
}

// Timestamp formatting

/// `h:mm:ss` for durations of an hour or more, `m:ss` below that.
pub open spec fn format_timestamp_view(duration: int) -> Seq<char>
    recommends
        duration >= 0,
{
    let seconds = duration % 60;
    let minutes = (duration / 60) % 60;
    let hours = duration / 3600;
    if hours <= 0 {
        dec_digits(minutes) + seq![':'] + dec_digits_padded(seconds)
    } else {
        dec_digits(hours) + seq![':'] + dec_digits_padded(minutes) + seq![':']
            + dec_digits_padded(seconds)
    }
}

/// Renders a duration in seconds as `m:ss`, or `h:mm:ss` from one hour up.
pub fn format_timestamp(duration: i64) -> (r: String)
    requires
        duration >= 0,
    ensures
        r@ == format_timestamp_view(duration as int),
{
    let seconds = (duration % 60) as u64;
    let minutes = ((duration / 60) % 60) as u64;
    let hours = (duration / 3600) as u64;
    if hours == 0 {
        let mut r = u64_digits(minutes);
        r.append(":");
        let s = two_digits(seconds);
        r.append(s.as_str());
        proof {
            reveal_strlit(":");
            assert(r@ =~= format_timestamp_view(duration as int));
        }
        r
    } else {
        let mut r = u64_digits(hours);
        r.append(":");
        let m = two_digits(minutes);
        r.append(m.as_str());
        r.append(":");
        let s = two_digits(seconds);
        r.append(s.as_str());
        proof {
            reveal_strlit(":");
            assert(r@ =~= format_timestamp_view(duration as int));
        }
        r
    }
}

// URL shape

/// Whether the text begins with the scheme `https://`.
pub open spec fn starts_with_https(s: Seq<char>) -> bool {
    s.len() >= 8 && s.subrange(0, 8) == "https://"@
}

/// Whether the text looks like a link the resolver should treat as a URL
/// rather than a search query.
pub fn is_url(text: &String) -> (r: bool)
    ensures
        r == starts_with_https(text@),
{
    proof {
        reveal_strlit("https://");
    }
    let s = text.as_str();
    let n = s.unicode_len();
    if n < 8 {
        return false;
    }
    let r = s.get_char(0) == 'h' && s.get_char(1) == 't' && s.get_char(2) == 't' && s.get_char(3)
        == 'p' && s.get_char(4) == 's' && s.get_char(5) == ':' && s.get_char(6) == '/'
        && s.get_char(7) == '/';
    proof {
        if r {
            assert(text@.subrange(0, 8) =~= "https://"@);
        } else {
            assert(text@.subrange(0, 8) != "https://"@) by {
                if text@.subrange(0, 8) == "https://"@ {
                    assert(text@[0] == "https://"@[0]);
                    assert(text@[1] == "https://"@[1]);
                    assert(text@[2] == "https://"@[2]);
                    assert(text@[3] == "https://"@[3]);
                    assert(text@[4] == "https://"@[4]);
                    assert(text@[5] == "https://"@[5]);
                    assert(text@[6] == "https://"@[6]);
                    assert(text@[7] == "https://"@[7]);
                }
            };
        }
    }
    r
}

// Plain string equality

/// Compares two pieces of text character by character.
pub fn str_eq(a: &str, b: &str) -> (r: bool)
    ensures
        r == (a@ == b@),
{
    let n = a.unicode_len();
    let m = b.unicode_len();
    if n != m {
        proof {
            assert(a@ != b@);
        }
        return false;
    }
    let mut i: usize = 0;
    while i < n
        invariant
            n == a@.len(),
            n == b@.len(),
            i <= n,
            forall|j: int| 0 <= j < i ==> a@[j] == b@[j],
        decreases n - i,
    {
        if a.get_char(i) != b.get_char(i) {
            proof {
                assert(a@[i as int] != b@[i as int]);
            }
            return false;
        }
        i = i + 1;
    }
    proof {
        assert(a@ =~= b@);
    }
    true
}

// Escaping for chat markup

/// The characters the chat renderer treats as markup.
pub open spec fn is_sensitive(c: char) -> bool {
    c == '\\' || c == '*' || c == '_' || c == '~' || c == '`' || c == '|' || c == '>'
}

/// The text with a backslash put before every markup character.
pub open spec fn escaped_view(s: Seq<char>) -> Seq<char>
    decreases s.len(),
{
    if s.len() == 0 {
        Seq::<char>::empty()
    } else {
        escaped_view(s.drop_last()) + (if is_sensitive(s.last()) {
            seq!['\\', s.last()]
        } else {
            seq![s.last()]
        })
    }
}

/// Escapes every markup character with a backslash.
pub fn escape_string(text: &String) -> (r: String)
    ensures
        r@ == escaped_view(text@),
{
    let s = text.as_str();
    let n = s.unicode_len();
    let mut out = String::new();
    let mut i: usize = 0;
    while i < n
        invariant
            n == s@.len(),
            s@ == text@,
            i <= n,
            out@ == escaped_view(s@.take(i as int)),
        decreases n - i,
    {
        let c = s.get_char(i);
        if c == '\\' || c == '*' || c == '_' || c == '~' || c == '`' || c == '|' || c == '>' {
            out.append("\\");
        }
        let piece = s.substring_char(i, i + 1);
        out.append(piece);
        i = i + 1;
        proof {
            reveal_strlit("\\");
            assert(s@.take(i as int).drop_last() =~= s@.take(i - 1));
            assert(s@.take(i as int).last() == c);
            assert(out@ =~= escaped_view(s@.take(i as int)));
        }
    }
    proof {
        assert(s@.take(n as int) =~= text@);
    }
    out
}

// Timestamp parsing

/// The pieces of the text between occurrences of `sep`.  The empty text has
/// one empty piece; a separator at either end contributes an empty piece.
pub open spec fn split_view(s: Seq<char>, sep: char) -> Seq<Seq<char>>
    decreases s.len(),
{
    if s.len() == 0 {
        seq![Seq::<char>::empty()]
    } else {
        let r = split_view(s.drop_last(), sep);
        if s.last() == sep {
            r.push(Seq::<char>::empty())
        } else {
            r.update(r.len() - 1, r.last().push(s.last()))
        }
    }
}

pub proof fn lemma_split_view_nonempty(s: Seq<char>, sep: char)
    ensures
        split_view(s, sep).len() >= 1,
    decreases s.len(),
{
    if s.len() > 0 {
        lemma_split_view_nonempty(s.drop_last(), sep);
    }
}

/// Whether every character of the text is a decimal digit.
pub open spec fn all_digits(s: Seq<char>) -> bool {
    forall|i: int| 0 <= i < s.len() ==> is_digit(s[i])
}

/// The value of a digit string, most significant digit first.
pub open spec fn digits_value(s: Seq<char>) -> int
    recommends
        all_digits(s),
    decreases s.len(),
{
    if s.len() == 0 {
        0
    } else {
        digits_value(s.drop_last()) * 10 + digit_value(s.last())
    }
}

/// The digits of the text after its optional sign.
pub open spec fn sign_stripped(s: Seq<char>) -> Seq<char> {
    if s.len() > 0 && (s[0] == '-' || s[0] == '+') {
        s.drop_first()
    } else {
        s
    }
}

/// Whether the text parses as a signed 64-bit number: an optional sign,
/// then at least one digit, nothing else, and a value in range.
pub open spec fn i64_text_ok(s: Seq<char>) -> bool {
    let negative = s.len() > 0 && s[0] == '-';
    let ds = sign_stripped(s);
    ds.len() > 0 && all_digits(ds) && (if negative {
        digits_value(ds) <= 0x8000000000000000
    } else {
        digits_value(ds) <= 0x7fffffffffffffff
    })
}

/// The signed value of a text that parses as a signed 64-bit number.
pub open spec fn i64_text_value(s: Seq<char>) -> int
    recommends
        i64_text_ok(s),
{
    if s.len() > 0 && s[0] == '-' {
        -digits_value(sign_stripped(s))
    } else {
        digits_value(sign_stripped(s))
    }
}

/// What parsing the text as a signed 64-bit number, with failures read as
/// zero, yields.
pub open spec fn parsed_i64(s: Seq<char>) -> int {
    if i64_text_ok(s) {
        i64_text_value(s)
    } else {
        0
    }
}

/// The left fold `accum * 60 + piece` over the colon-separated pieces.
pub open spec fn timestamp_value(parts: Seq<Seq<char>>) -> int
    decreases parts.len(),
{
    if parts.len() == 0 {
        0
    } else {
        timestamp_value(parts.drop_last()) * 60 + parsed_i64(parts.last())
    }
}

/// Whether one fold step stays within a signed 64-bit number, both after the
/// multiplication and after the addition.
pub open spec fn fold_step_in_range(accum: int, piece: int) -> bool {
    i64::MIN <= accum * 60 <= i64::MAX && i64::MIN <= accum * 60 + piece <= i64::MAX
}

/// Whether the whole fold stays within a signed 64-bit number at every step.
pub open spec fn timestamp_in_range(parts: Seq<Seq<char>>) -> bool {
    forall|k: int|
        0 <= k < parts.len() ==> fold_step_in_range(
            timestamp_value(parts.take(k)),
            parsed_i64(parts[k]),
        )
}

proof fn lemma_digits_value_nonneg(s: Seq<char>)
    requires
        all_digits(s),
    ensures
        digits_value(s) >= 0,
    decreases s.len(),
{
    if s.len() > 0 {
        assert(all_digits(s.drop_last()));
        lemma_digits_value_nonneg(s.drop_last());
    }
}

proof fn lemma_digits_value_monotone(s: Seq<char>, k: int)
    requires
        all_digits(s),
        0 <= k <= s.len(),
    ensures
        digits_value(s) >= digits_value(s.take(k)),
    decreases s.len() - k,
{
    if k < s.len() {
        assert(s.take(k + 1).drop_last() =~= s.take(k));
        assert(all_digits(s.take(k)));
        lemma_digits_value_nonneg(s.take(k));
        assert(digits_value(s.take(k + 1)) == digits_value(s.take(k)) * 10 + digit_value(
            s.take(k + 1).last(),
        ));
        assert(digits_value(s.take(k + 1)) >= digits_value(s.take(k)));
        lemma_digits_value_monotone(s, k + 1);
        assert(s.take(s.len() as int) =~= s);
    } else {
        assert(s.take(k) =~= s);
    }
}

/// Splits the text at every occurrence of `sep`, keeping empty pieces.
pub fn split_at_char(text: &str, sep: char) -> (parts: Vec<String>)
    ensures
        parts@.map_values(|p: String| p@) == split_view(text@, sep),
{
    let n = text.unicode_len();
    let mut parts: Vec<String> = Vec::new();
    let mut start: usize = 0;
    let mut i: usize = 0;
    proof {
        assert(text@.take(0) =~= Seq::<char>::empty());
        assert(split_view(text@.take(0), sep) =~~= parts@.map_values(|p: String| p@).push(
            text@.subrange(0, 0),
        ));
    }
    while i < n
        invariant
            n == text@.len(),
            start <= i <= n,
            split_view(text@.take(i as int), sep) == parts@.map_values(|p: String| p@).push(
                text@.subrange(start as int, i as int),
            ),
        decreases n - i,
    {
        let ghost pre_parts = parts@.map_values(|p: String| p@);
        let ghost pre_start = start;
        let c = text.get_char(i);
        if c == sep {
            let piece = text.substring_char(start, i);
            parts.push(String::from_str(piece));
            start = i + 1;
        }
        i = i + 1;
        proof {
            assert(text@.take(i as int).drop_last() =~= text@.take(i - 1));
            lemma_split_view_nonempty(text@.take(i - 1), sep);
            if c == sep {
                assert(parts@.map_values(|p: String| p@) =~~= pre_parts.push(
                    text@.subrange(pre_start as int, i - 1),
                ));
                assert(text@.subrange(start as int, i as int) =~= Seq::<char>::empty());
                assert(split_view(text@.take(i as int), sep) =~~= parts@.map_values(
                    |p: String| p@,
                ).push(text@.subrange(start as int, i as int)));
            } else {
                assert(text@.subrange(start as int, i as int) =~= text@.subrange(
                    start as int,
                    i - 1,
                ).push(text@[i - 1]));
                assert(split_view(text@.take(i as int), sep) =~~= parts@.map_values(
                    |p: String| p@,
                ).push(text@.subrange(start as int, i as int)));
            }
        }
    }
    let piece = text.substring_char(start, n);
    parts.push(String::from_str(piece));
    proof {
        assert(text@.take(n as int) =~= text@);
        assert(parts@.map_values(|p: String| p@) =~~= split_view(text@, sep));
    }
    parts
}

/// Parses the text as a signed 64-bit number the way the standard parser
/// does: an optional sign, then at least one digit, nothing else, value in
/// range; anything else is no number.
pub fn try_parse_i64(part: &String) -> (r: Option<i64>)
    ensures
        r is Some <==> i64_text_ok(part@),
        r matches Some(v) ==> v as int == i64_text_value(part@),
{
    let s = part.as_str();
    let n = s.unicode_len();
    let has_sign: bool = n > 0 && (s.get_char(0) == '-' || s.get_char(0) == '+');
    let neg: bool = n > 0 && s.get_char(0) == '-';
    let dstart: usize = if has_sign {
        1
    } else {
        0
    };
    let ghost ds = if has_sign {
        part@.drop_first()
    } else {
        part@
    };
    if n == dstart {
        // no digits at all
        return None;
    }
    let limit: u64 = if neg {
        9223372036854775808
    } else {
        9223372036854775807
    };
    let mut acc: u64 = 0;
    let mut i: usize = dstart;
    while i < n
        invariant
            n == part@.len(),
            s@ == part@,
            dstart <= i <= n,
            has_sign == (part@.len() > 0 && (part@[0] == '-' || part@[0] == '+')),
            neg == (part@.len() > 0 && part@[0] == '-'),
            dstart == if has_sign {
                1int
            } else {
                0int
            },
            ds == if has_sign {
                part@.drop_first()
            } else {
                part@
            },
            ds.len() == n - dstart,
            forall|j: int| 0 <= j < ds.len() ==> ds[j] == part@[j + dstart],
            all_digits(ds.take(i - dstart)),
            acc == digits_value(ds.take(i - dstart)),
            acc <= limit,
            limit == if neg {
                0x8000000000000000u64
            } else {
                0x7fffffffffffffffu64
            },
        decreases n - i,
    {
        let c = s.get_char(i);
        let u = c as u32;
        if u < 48 || u > 57 {
            // a stray character: parsing fails, and failure reads as zero
            proof {
                assert(ds[i - dstart] == part@[i as int]);
                assert(!is_digit(ds[i - dstart]));
                assert(!all_digits(ds));
                let sv = part@;
                let dspec = if sv.len() > 0 && (sv[0] == '-' || sv[0] == '+') {
                    sv.drop_first()
                } else {
                    sv
                };
                assert(dspec == ds);
                assert(!i64_text_ok(part@));
            }
            return None;
        }
        let d = (u - 48) as u64;
        proof {
            assert(ds[i - dstart] == part@[i as int]);
            assert(is_digit(ds[i - dstart]));
            assert(d == digit_value(ds[i - dstart]));
        }
        if acc > (limit - d) / 10 {
            // too large for a signed 64-bit number however the rest parses:
            // on overflow as on a stray character the result reads as zero
            proof {
                let pre = ds.take(i - dstart);
                assert(ds.take(i - dstart + 1).drop_last() =~= pre);
                assert(ds.take(i - dstart + 1).last() == ds[i - dstart]);
                assert(acc * 10 + d > limit) by (nonlinear_arith)
                    requires
                        acc > (limit - d) / 10,
                        d <= limit,
                        acc >= 0,
                        d >= 0,
                ;
                assert(digits_value(ds.take(i - dstart + 1)) > limit);
                if all_digits(ds) {
                    lemma_digits_value_monotone(ds, i - dstart + 1);
                    assert(digits_value(ds) > limit);
                }
                let sv = part@;
                let dspec = if sv.len() > 0 && (sv[0] == '-' || sv[0] == '+') {
                    sv.drop_first()
                } else {
                    sv
                };
                assert(dspec == ds);
                assert(!i64_text_ok(part@));
            }
            return None;
        }
        proof {
            assert(acc * 10 + d <= limit) by (nonlinear_arith)
                requires
                    acc <= (limit - d) / 10,
                    d <= limit,
                    acc >= 0,
                    d >= 0,
            ;
            assert(ds.take(i - dstart + 1).drop_last() =~= ds.take(i - dstart));
            assert(ds.take(i - dstart + 1).last() == ds[i - dstart]);
        }
        acc = acc * 10 + d;
        i = i + 1;
    }
    proof {
        assert(ds.take(n - dstart) =~= ds);
    }
    if neg {
        if acc == 9223372036854775808 {
            Some(i64::MIN)
        } else {
            proof {
                lemma_digits_value_nonneg(ds);
            }
            Some(-(acc as i64))
        }
    } else {
        Some(acc as i64)
    }
}

fn parse_i64_or_zero(part: &String) -> (r: i64)
    ensures
        r as int == parsed_i64(part@),
{
    match try_parse_i64(part) {
        Some(v) => v,
        None => 0,
    }
}

/// Reads a `h:mm:ss`-style timestamp by folding `accum * 60 + piece` over
/// the colon-separated pieces, each piece parsed as a signed 64-bit number
/// with failures read as zero.
#[verifier::rlimit(50)]
pub fn parse_timestamp(timestamp: &String) -> (r: i64)
    requires
        timestamp_in_range(split_view(timestamp@, ':')),
    ensures
        r as int == timestamp_value(split_view(timestamp@, ':')),
{
    let parts = split_at_char(timestamp.as_str(), ':');
    let ghost sparts = split_view(timestamp@, ':');
    let mut acc: i64 = 0;
    let mut k: usize = 0;
    while k < parts.len()
        invariant
            parts@.map_values(|p: String| p@) == sparts,
            sparts == split_view(timestamp@, ':'),
            timestamp_in_range(sparts),
            k <= parts.len(),
            parts@.len() == sparts.len(),
            acc as int == timestamp_value(sparts.take(k as int)),
        decreases parts.len() - k,
    {
        let x = parse_i64_or_zero(&parts[k]);
        proof {
            assert(sparts[k as int] == parts@.map_values(|p: String| p@)[k as int]);
            assert(x as int == parsed_i64(sparts[k as int]));
            assert(fold_step_in_range(
                timestamp_value(sparts.take(k as int)),
                parsed_i64(sparts[k as int]),
            ));
        }
        acc = acc * 60 + x;
        k = k + 1;
        proof {
            assert(sparts.take(k as int).drop_last() =~= sparts.take(k - 1));
            assert(sparts.take(k as int).last() == sparts[k - 1]);
        }
    }
    proof {
        assert(sparts.take(sparts.len() as int) =~= sparts);
    }
    acc
}

/// Whether the text parses as an unsigned machine-word number: an optional
/// plus sign, then at least one digit, nothing else, and a value in range.
pub open spec fn usize_text_ok(s: Seq<char>) -> bool {
    let ds = if s.len() > 0 && s[0] == '+' {
        s.drop_first()
    } else {
        s
    };
    ds.len() > 0 && all_digits(ds) && digits_value(ds) <= usize::MAX
}

/// What parsing the text as an unsigned machine-word number, with failures
/// read as zero, yields.
pub open spec fn parsed_usize(s: Seq<char>) -> int {
    if usize_text_ok(s) {
        digits_value(
            if s.len() > 0 && s[0] == '+' {
                s.drop_first()
            } else {
                s
            },
        )
    } else {
        0
    }
}

/// Parses the text as an unsigned machine-word number the way the standard
/// parser does, with failures read as zero.
pub fn parse_usize_or_zero(part: &String) -> (r: usize)
    ensures
        r as int == parsed_usize(part@),
{
    let s = part.as_str();
    let n = s.unicode_len();
    let has_sign: bool = n > 0 && s.get_char(0) == '+';
    let dstart: usize = if has_sign {
        1
    } else {
        0
    };
    let ghost ds = if has_sign {
        part@.drop_first()
    } else {
        part@
    };
    if n == dstart {
        // no digits at all
        return 0;
    }
    let limit: usize = usize::MAX;
    let mut acc: usize = 0;
    let mut i: usize = dstart;
    while i < n
        invariant
            n == part@.len(),
            s@ == part@,
            dstart <= i <= n,
            has_sign == (part@.len() > 0 && part@[0] == '+'),
            dstart == if has_sign {
                1int
            } else {
                0int
            },
            ds == if has_sign {
                part@.drop_first()
            } else {
                part@
            },
            ds.len() == n - dstart,
            forall|j: int| 0 <= j < ds.len() ==> ds[j] == part@[j + dstart],
            all_digits(ds.take(i - dstart)),
            acc == digits_value(ds.take(i - dstart)),
            acc <= limit,
            limit == usize::MAX,
        decreases n - i,
    {
        let c = s.get_char(i);
        let u = c as u32;
        if u < 48 || u > 57 {
            // a stray character: parsing fails, and failure reads as zero
            proof {
                assert(ds[i - dstart] == part@[i as int]);
                assert(!is_digit(ds[i - dstart]));
                assert(!all_digits(ds));
                assert(parsed_usize(part@) == 0);
            }
            return 0;
        }
        let d = (u - 48) as usize;
        proof {
            assert(ds[i - dstart] == part@[i as int]);
            assert(is_digit(ds[i - dstart]));
            assert(d == digit_value(ds[i - dstart]));
        }
        if acc > (limit - d) / 10 {
            // too large for a machine word however the rest parses: on
            // overflow as on a stray character the result reads as zero
            proof {
                let pre = ds.take(i - dstart);
                assert(ds.take(i - dstart + 1).drop_last() =~= pre);
                assert(ds.take(i - dstart + 1).last() == ds[i - dstart]);
                assert(acc * 10 + d > limit) by (nonlinear_arith)
                    requires
                        acc > (limit - d) / 10,
                        d <= limit,
                        acc >= 0,
                        d >= 0,
                ;
                assert(digits_value(ds.take(i - dstart + 1)) > limit);
                if all_digits(ds) {
                    lemma_digits_value_monotone(ds, i - dstart + 1);
                    assert(digits_value(ds) > limit);
                }
                assert(parsed_usize(part@) == 0);
            }
            return 0;
        }
        proof {
            assert(acc * 10 + d <= limit) by (nonlinear_arith)
                requires
                    acc <= (limit - d) / 10,
                    d <= limit,
                    acc >= 0,
                    d >= 0,
            ;
            assert(ds.take(i - dstart + 1).drop_last() =~= ds.take(i - dstart));
            assert(ds.take(i - dstart + 1).last() == ds[i - dstart]);
        }
        acc = acc * 10 + d;
        i = i + 1;
    }
    proof {
        assert(ds.take(n - dstart) =~= ds);
    }
    acc
}

// Timestamps inside a track description

/// Checks, without parsing, that folding a split timestamp stays within a
/// signed 64-bit number at every step.
pub fn timestamp_parts_in_range(parts: &Vec<String>) -> (b: bool)
    ensures
        b == timestamp_in_range(parts@.map_values(|p: String| p@)),
{
    let ghost sparts = parts@.map_values(|p: String| p@);
    let mut acc: i128 = 0;
    let mut k: usize = 0;
    while k < parts.len()
        invariant
            sparts == parts@.map_values(|p: String| p@),
            k <= parts.len(),
            parts@.len() == sparts.len(),
            acc as int == timestamp_value(sparts.take(k as int)),
            i64::MIN <= acc <= i64::MAX,
            forall|j: int|
                0 <= j < k ==> fold_step_in_range(
                    timestamp_value(sparts.take(j)),
                    parsed_i64(sparts[j]),
                ),
        decreases parts.len() - k,
    {
        let x = parse_i64_or_zero(&parts[k]);
        proof {
            assert(sparts[k as int] == parts@[k as int]@);
        }
        let m: i128 = acc * 60;
        if m < (i64::MIN as i128) || m > (i64::MAX as i128) {
            proof {
                assert(!fold_step_in_range(
                    timestamp_value(sparts.take(k as int)),
                    parsed_i64(sparts[k as int]),
                ));
            }
            return false;
        }
        let a2: i128 = m + (x as i128);
        if a2 < (i64::MIN as i128) || a2 > (i64::MAX as i128) {
            proof {
                assert(!fold_step_in_range(
                    timestamp_value(sparts.take(k as int)),
                    parsed_i64(sparts[k as int]),
                ));
            }
            return false;
        }
        acc = a2;
        k = k + 1;
        proof {
            assert(sparts.take(k as int).drop_last() =~= sparts.take(k - 1));
            assert(sparts.take(k as int).last() == sparts[k - 1]);
        }
    }
    proof {
        assert(sparts.take(sparts.len() as int) =~= sparts);
    }
    true
}

/// Where the timestamp pattern `[0-9]*:?[0-9]?[0-9]:[0-9][0-9]` first
/// matches in a line, as character positions, if it matches at all.
pub uninterp spec fn timestamp_match(line: Seq<char>) -> Option<(int, int)>;

/// Relies on regex::Regex::new and regex::Regex::find: the pattern is the
/// fixed timestamp shape `[0-9]*:?[0-9]?[0-9]:[0-9][0-9]`, a valid constant,
/// so compiling it cannot fail, and the leftmost match depends on the line's
/// characters alone.  Match bounds are byte positions on valid character
/// boundaries; they are converted to character positions before returning.
#[verifier::external_body]
fn timestamp_find(line: &str) -> (r: Option<(usize, usize)>)
    ensures
        r is Some <==> timestamp_match(line@) is Some,
        r matches Some(m) ==> timestamp_match(line@) == Some((m.0 as int, m.1 as int)) && m.0
            <= m.1 <= line@.len(),
{
    regex::Regex::new("[0-9]*:?[0-9]?[0-9]:[0-9][0-9]").unwrap().find(line).map(
        |m| (line[..m.start()].chars().count(), line[..m.end()].chars().count()),
    )
}

/// Whether the text holds something shaped like a timestamp.
pub fn is_timestamp(string: &String) -> (r: bool)
    ensures
        r == (timestamp_match(string@) is Some),
{
    timestamp_find(string.as_str()).is_some()
}

/// The code points the standard library's trim removes: the characters with
/// the White_Space property.
pub open spec fn is_whitespace_char(c: char) -> bool {
    let u = c as int;
    (9 <= u && u <= 13) || u == 32 || u == 0x85 || u == 0xA0 || u == 0x1680 || (0x2000 <= u && u
        <= 0x200A) || u == 0x2028 || u == 0x2029 || u == 0x202F || u == 0x205F || u == 0x3000
}

fn is_whitespace(c: char) -> (r: bool)
    ensures
        r == is_whitespace_char(c),
{
    let u = c as u32;
    (9 <= u && u <= 13) || u == 32 || u == 0x85 || u == 0xA0 || u == 0x1680 || (0x2000 <= u && u
        <= 0x200A) || u == 0x2028 || u == 0x2029 || u == 0x202F || u == 0x205F || u == 0x3000
}

/// The first index at or after `i` holding a non-whitespace character, or
/// the length when there is none.
pub open spec fn trim_start_index(s: Seq<char>, i: int) -> int
    recommends
        0 <= i <= s.len(),
    decreases s.len() - i,
{
    if i < 0 || i >= s.len() {
        s.len() as int
    } else if is_whitespace_char(s[i]) {
        trim_start_index(s, i + 1)
    } else {
        i
    }
}

/// One past the last non-whitespace character strictly before `i`, or zero
/// when there is none.
pub open spec fn trim_end_index(s: Seq<char>, i: int) -> int
    recommends
        0 <= i <= s.len(),
    decreases i,
{
    if i <= 0 {
        0
    } else if is_whitespace_char(s[i - 1]) {
        trim_end_index(s, i - 1)
    } else {
        i
    }
}

/// The text with leading and trailing whitespace removed.
pub open spec fn trimmed(s: Seq<char>) -> Seq<char> {
    let a = trim_start_index(s, 0);
    let b = trim_end_index(s, s.len() as int);
    if a <= b {
        s.subrange(a, b)
    } else {
        Seq::<char>::empty()
    }
}

proof fn lemma_trim_end_all_ws(s: Seq<char>, i: int)
    requires
        0 <= i <= s.len(),
        forall|j: int| 0 <= j < i ==> is_whitespace_char(s[j]),
    ensures
        trim_end_index(s, i) == 0,
    decreases i,
{
    if i > 0 {
        lemma_trim_end_all_ws(s, i - 1);
    }
}

fn trim_str(text: &str) -> (r: String)
    ensures
        r@ == trimmed(text@),
{
    let n = text.unicode_len();
    let mut a: usize = 0;
    while a < n && is_whitespace(text.get_char(a))
        invariant
            n == text@.len(),
            a <= n,
            trim_start_index(text@, 0) == trim_start_index(text@, a as int),
            forall|j: int| 0 <= j < a ==> is_whitespace_char(text@[j]),
        decreases n - a,
    {
        a = a + 1;
    }
    proof {
        assert(trim_start_index(text@, 0) == a);
    }
    let mut b: usize = n;
    while b > a && is_whitespace(text.get_char(b - 1))
        invariant
            n == text@.len(),
            a <= b <= n,
            trim_start_index(text@, 0) == a,
            forall|j: int| 0 <= j < a ==> is_whitespace_char(text@[j]),
            trim_end_index(text@, n as int) == trim_end_index(text@, b as int),
        decreases b,
    {
        b = b - 1;
    }
    proof {
        if b > a {
            assert(trim_end_index(text@, b as int) == b);
        } else {
            // the whole text is whitespace: the end trim walks through the
            // leading whitespace all the way to zero and the result is empty
            assert(b == a);
            lemma_trim_end_all_ws(text@, b as int);
        }
    }
    let piece = text.substring_char(a, b);
    let r = String::from_str(piece);
    proof {
        assert(r@ =~= trimmed(text@));
    }
    r
}

/// One timestamp found in a description line.
pub struct Timestamp {
    pub seconds: i64,
    pub label: String,
    pub timestamp: String,
    pub string: String,
}

/// Mathematical value of a [`Timestamp`].
#[verifier::ext_equal]
pub struct TimestampView {
    pub seconds: int,
    pub label: Seq<char>,
    pub timestamp: Seq<char>,
    pub string: Seq<char>,
}

impl View for Timestamp {
    type V = TimestampView;

    open spec fn view(&self) -> TimestampView {
        TimestampView {
            seconds: self.seconds as int,
            label: self.label@,
            timestamp: self.timestamp@,
            string: self.string@,
        }
    }
}

/// The entry one matched line contributes: the line itself, the matched
/// timestamp text and its value, and a label made of what stands around the
/// match, trimmed, with a space between the two halves when both are there.
pub open spec fn timestamp_entry_view(line: Seq<char>, a: int, b: int) -> TimestampView
    recommends
        0 <= a <= b <= line.len(),
{
    let ts = line.subrange(a, b);
    let front = trimmed(line.subrange(0, a));
    let back = trimmed(line.subrange(b, line.len() as int));
    TimestampView {
        seconds: timestamp_value(split_view(ts, ':')),
        label: front + (if front.len() > 0 && back.len() > 0 {
            seq![' ']
        } else {
            Seq::<char>::empty()
        }) + back,
        timestamp: ts,
        string: line,
    }
}

/// The entries of all the lines, in line order, one per line that holds a
/// timestamp.
pub open spec fn description_entries(lines: Seq<Seq<char>>) -> Seq<TimestampView>
    decreases lines.len(),
{
    if lines.len() == 0 {
        Seq::<TimestampView>::empty()
    } else {
        description_entries(lines.drop_last()) + (match timestamp_match(lines.last()) {
            Some(m) => seq![timestamp_entry_view(lines.last(), m.0, m.1)],
            None => Seq::<TimestampView>::empty(),
        })
    }
}

/// Whether the matched region of one line folds within a signed 64-bit
/// number, so that its value can be read without overflow.
pub open spec fn line_in_range(line: Seq<char>) -> bool {
    match timestamp_match(line) {
        Some(m) => timestamp_in_range(split_view(line.subrange(m.0, m.1), ':')),
        None => true,
    }
}

/// Whether every line of the description is safe to read.
pub open spec fn description_in_range(description: Seq<char>) -> bool {
    forall|i: int|
        0 <= i < split_view(description, '\n').len() ==> line_in_range(
            #[trigger] split_view(description, '\n')[i],
        )
}

/// Scans a description line by line for timestamps, checking first that each
/// found timestamp can be read without overflow: `None` exactly when one
/// cannot, otherwise the entries in line order.
pub fn description_timestamps(description: String) -> (r: Option<Vec<Timestamp>>)
    ensures
        match r {
            Some(v) => description_in_range(description@) && v@.map_values(|t: Timestamp| t@)
                == description_entries(split_view(description@, '\n').map_values(|l: Seq<char>| l)),
            None => !description_in_range(description@),
        },
{
    let lines = split_at_char(description.as_str(), '\n');
    let ghost lviews = split_view(description@, '\n');
    proof {
        assert(lviews.map_values(|l: Seq<char>| l) =~= lviews);
    }
    let mut out: Vec<Timestamp> = Vec::new();
    let mut i: usize = 0;
    while i < lines.len()
        invariant
            lines@.map_values(|p: String| p@) == lviews,
            lviews == split_view(description@, '\n'),
            i <= lines.len(),
            lines@.len() == lviews.len(),
            out@.map_values(|t: Timestamp| t@) =~= description_entries(lviews.take(i as int)),
            forall|j: int| 0 <= j < i ==> line_in_range(#[trigger] lviews[j]),
        decreases lines.len() - i,
    {
        let line = &lines[i];
        proof {
            assert(line@ == lviews[i as int]);
        }
        let found = timestamp_find(line.as_str());
        match found {
            None => {
                proof {
                    assert(line_in_range(lviews[i as int]));
                }
            },
            Some((a, b)) => {
                let line_str = line.as_str();
                let line_len = line_str.unicode_len();
                let ts_piece = line_str.substring_char(a, b);
                let ts_string = String::from_str(ts_piece);
                let parts = split_at_char(ts_string.as_str(), ':');
                if !timestamp_parts_in_range(&parts) {
                    proof {
                        assert(!line_in_range(lviews[i as int]));
                    }
                    return None;
                }
                let seconds = parse_timestamp(&ts_string);
                let front = trim_str(line_str.substring_char(0, a));
                let back = trim_str(line_str.substring_char(b, line_len));
                let mut label = front;
                if label.as_str().unicode_len() > 0 && back.as_str().unicode_len() > 0 {
                    label.append(" ");
                }
                label.append(back.as_str());
                proof {
                    reveal_strlit(" ");
                    assert(line_in_range(lviews[i as int]));
                }
                let entry = Timestamp {
                    seconds,
                    label,
                    timestamp: ts_string,
                    string: line.clone(),
                };
                proof {
                    assert(entry@ =~= timestamp_entry_view(lviews[i as int], a as int, b as int));
                }
                out.push(entry);
            },
        }
        i = i + 1;
        proof {
            assert(lviews.take(i as int).drop_last() =~= lviews.take(i - 1));
            assert(lviews.take(i as int).last() == lviews[i - 1]);
            assert(out@.map_values(|t: Timestamp| t@) =~= description_entries(
                lviews.take(i as int),
            ));
        }
    }
    proof {
        assert(lviews.take(lviews.len() as int) =~= lviews);
    }
    Some(out)
}

/// Scans a description line by line for timestamps; every line must be safe
/// to read.  One entry per line that holds a timestamp, in line order.
pub fn parse_description_timestamps(description: String) -> (r: Vec<Timestamp>)
    requires
        description_in_range(description@),
    ensures
        r@.map_values(|t: Timestamp| t@) == description_entries(
            split_view(description@, '\n').map_values(|l: Seq<char>| l),
        ),
{
    match description_timestamps(description) {
        Some(v) => v,
        None => vstd::pervasive::unreached(),
    }
}

// Trimming to a display width

/// The byte length of the UTF-8 encoding of the text.
pub open spec fn utf8_len(s: Seq<char>) -> int {
    encode_utf8(s).len() as int
}

/// The byte offset at which the `i`-th character starts.
pub open spec fn char_offset(s: Seq<char>, i: int) -> int
    recommends
        0 <= i <= s.len(),
{
    utf8_len(s.take(i))
}

/// The first character index at or after `i` whose byte offset exceeds the
/// width, or the character count when none does.
pub open spec fn cut_index(s: Seq<char>, width: int, i: int) -> int
    decreases s.len() - i,
{
    if i >= s.len() {
        s.len() as int
    } else if char_offset(s, i) > width {
        i
    } else {
        cut_index(s, width, i + 1)
    }
}

/// The text trimmed to roughly `width` bytes: unchanged when its byte length
/// fits, otherwise cut two characters before the first character that starts
/// past the width, with an ellipsis appended.
pub open spec fn limited_view(s: Seq<char>, width: int) -> Seq<char> {
    if utf8_len(s) <= width {
        s
    } else {
        let j = cut_index(s, width, 0);
        if j == s.len() {
            s
        } else {
            s.take(
                if j >= 2 {
                    j - 2
                } else {
                    0
                },
            ) + seq!['…']
        }
    }
}

proof fn lemma_encode_utf8_push(s: Seq<char>, c: char)
    ensures
        encode_utf8(s.push(c)) =~= encode_utf8(s) + encode_scalar(c as u32),
    decreases s.len(),
{
    reveal_with_fuel(vstd::utf8::encode_utf8, 2);
    if s.len() == 0 {
        assert(s.push(c)[0] == c);
        assert(s.push(c).drop_first() =~= Seq::<char>::empty());
        assert(encode_utf8(s) =~= Seq::<u8>::empty());
    } else {
        assert(s.push(c)[0] == s[0]);
        assert(s.push(c).drop_first() =~= s.drop_first().push(c));
        lemma_encode_utf8_push(s.drop_first(), c);
    }
}

proof fn lemma_char_offset_step(s: Seq<char>, i: int)
    requires
        0 <= i < s.len(),
    ensures
        char_offset(s, i + 1) == char_offset(s, i) + encode_scalar(s[i] as u32).len(),
{
    assert(s.take(i + 1) =~= s.take(i).push(s[i]));
    lemma_encode_utf8_push(s.take(i), s[i]);
}

proof fn lemma_char_offset_le(s: Seq<char>, i: int)
    requires
        0 <= i <= s.len(),
    ensures
        char_offset(s, i) <= utf8_len(s),
        char_offset(s, i) >= 0,
    decreases s.len() - i,
{
    if i == s.len() {
        assert(s.take(i) =~= s);
    } else {
        lemma_char_offset_step(s, i);
        lemma_char_offset_le(s, i + 1);
    }
}

/// How many bytes the UTF-8 encoding of one character takes.
fn char_utf8_len(c: char) -> (r: usize)
    ensures
        r == encode_scalar(c as u32).len(),
        1 <= r <= 4,
{
    let u = c as u32;
    if u < 0x80 {
        1
    } else if u < 0x800 {
        2
    } else if u < 0x10000 {
        3
    } else {
        4
    }
}

/// Trims the text to roughly `width` bytes, rounding down to a whole number
/// of characters and appending an ellipsis when something was cut.
pub fn limit_string_length(text: &String, width: usize) -> (r: String)
    ensures
        r@ == limited_view(text@, width as int),
{
    let s = text.as_str();
    let byte_len = s.as_bytes().len();
    if byte_len <= width {
        return text.clone();
    }
    let n = s.unicode_len();
    let mut offset: usize = 0;
    let mut i: usize = 0;
    while i < n
        invariant
            n == s@.len(),
            s@ == text@,
            i <= n,
            utf8_len(s@) > width,
            utf8_len(s@) <= usize::MAX,
            offset == char_offset(s@, i as int),
            offset <= utf8_len(s@),
            cut_index(s@, width as int, 0) == cut_index(s@, width as int, i as int),
        decreases n - i,
    {
        if offset > width {
            // character i is the first to start past the width; cut two
            // characters before it
            let cut = if i >= 2 {
                i - 2
            } else {
                0
            };
            proof {
                assert(cut_index(s@, width as int, i as int) == i);
                assert(cut_index(s@, width as int, 0) == i);
            }
            let head = s.substring_char(0, cut);
            let mut out = String::from_str(head);
            out.append("…");
            proof {
                reveal_strlit("…");
                assert(out@ =~= limited_view(text@, width as int));
            }
            return out;
        }
        let c = s.get_char(i);
        let step = char_utf8_len(c);
        proof {
            lemma_char_offset_step(s@, i as int);
            lemma_char_offset_le(s@, i + 1);
        }
        offset = offset + step;
        i = i + 1;
        proof {
            assert(cut_index(s@, width as int, i - 1) == cut_index(s@, width as int, i as int));
        }
    }
    proof {
        assert(i == n && offset == char_offset(s@, n as int));
        assert(cut_index(s@, width as int, n as int) == n);
        assert(limited_view(text@, width as int) == text@);
    }
    text.clone()
}

} // verus!
