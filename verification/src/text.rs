//! Verified text utilities: string equality, decimal rendering and parsing
//! of platform identifiers, list joining, and the case folding used by the
//! verification command.

use vstd::prelude::*;
use vstd::string::*;

verus! {

/// Character-wise string equality, with the mathematical equality of the
/// two views as its contract.
pub fn str_eq(a: &str, b: &str) -> (r: bool)
    ensures
        r == (a@ == b@),
{
    let alen = a.unicode_len();
    let blen = b.unicode_len();
    if alen != blen {
        return false;
    }
    let mut i: usize = 0;
    while i < alen
        invariant
            i <= alen,
            alen == a@.len(),
            alen == b@.len(),
            forall|j: int| 0 <= j < i ==> a@[j] == b@[j],
        decreases alen - i,
    {
        if a.get_char(i) != b.get_char(i) {
            return false;
        }
        i += 1;
    }
    proof {
        assert(a@ =~= b@);
    }
    true
}

/// The decimal digit character for a value between 0 and 9.
pub open spec fn spec_digit_char(d: int) -> char {
    if d == 0 {
        '0'
    } else if d == 1 {
        '1'
    } else if d == 2 {
        '2'
    } else if d == 3 {
        '3'
    } else if d == 4 {
        '4'
    } else if d == 5 {
        '5'
    } else if d == 6 {
        '6'
    } else if d == 7 {
        '7'
    } else if d == 8 {
        '8'
    } else {
        '9'
    }
}

/// The canonical decimal numeral of `n`: no leading zeros, except that 0
/// itself is written "0".
pub open spec fn spec_dec(n: nat) -> Seq<char>
    decreases n,
{
    if n < 10 {
        seq![spec_digit_char(n as int)]
    } else {
        spec_dec(n / 10) + seq![spec_digit_char((n % 10) as int)]
    }
}

/// Renders `n` as its decimal numeral.
pub fn u64_to_string(n: u64) -> (s: String)
    ensures
        s@ == spec_dec(n as nat),
    decreases n,
{
    let mut s: String = if n >= 10 {
        u64_to_string(n / 10)
    } else {
        String::new()
    };
    let d = n % 10;
    let ds: &str = match d {
        0 => "0",
        1 => "1",
        2 => "2",
        3 => "3",
        4 => "4",
        5 => "5",
        6 => "6",
        7 => "7",
        8 => "8",
        _ => "9",
    };
    proof {
        reveal_strlit("0");
        reveal_strlit("1");
        reveal_strlit("2");
        reveal_strlit("3");
        reveal_strlit("4");
        reveal_strlit("5");
        reveal_strlit("6");
        reveal_strlit("7");
        reveal_strlit("8");
        reveal_strlit("9");
        assert(ds@ =~= seq![spec_digit_char(d as int)]);
    }
    s.append(ds);
    proof {
        assert(s@ =~= spec_dec(n as nat));
    }
    s
}

/// Whether `c` is an ASCII decimal digit.
pub open spec fn is_dec_digit(c: char) -> bool {
    48 <= c as int <= 57
}

/// The numeric value of a digit character.
pub open spec fn digit_val(c: char) -> int {
    c as int - 48
}

/// Whether every character of `s` is a decimal digit.
pub open spec fn all_digits(s: Seq<char>) -> bool {
    forall|i: int| 0 <= i < s.len() ==> is_dec_digit(s[i])
}

/// The value of a digit string read in base 10.
pub open spec fn dec_value(s: Seq<char>) -> int
    decreases s.len(),
{
    if s.len() == 0 {
        0
    } else {
        dec_value(s.drop_last()) * 10 + digit_val(s.last())
    }
}

/// The digit part of a numeral: everything after an optional leading '+'.
pub open spec fn digits_part(s: Seq<char>) -> Seq<char> {
    if s.len() > 0 && s[0] == '+' {
        s.skip(1)
    } else {
        s
    }
}

/// Whether `s` is a numeral that a 64-bit unsigned parse accepts: an
/// optional leading '+', then one or more decimal digits, with a value
/// that fits in 64 bits.
pub open spec fn is_u64_numeral(s: Seq<char>) -> bool {
    let d = digits_part(s);
    d.len() > 0 && all_digits(d) && dec_value(d) <= u64::MAX
}

/// The value of a numeral accepted by `is_u64_numeral`.
pub open spec fn numeral_value(s: Seq<char>) -> int {
    dec_value(digits_part(s))
}

proof fn lemma_dec_value_nonneg(s: Seq<char>)
    requires
        all_digits(s),
    ensures
        dec_value(s) >= 0,
    decreases s.len(),
{
    if s.len() > 0 {
        lemma_dec_value_nonneg(s.drop_last());
    }
}

proof fn lemma_dec_value_prefix(s: Seq<char>, i: int)
    requires
        all_digits(s),
        0 <= i <= s.len(),
    ensures
        dec_value(s.take(i)) <= dec_value(s),
    decreases s.len() - i,
{
    if i == s.len() {
        assert(s.take(i) =~= s);
    } else {
        assert(s.take(i + 1).drop_last() =~= s.take(i));
        assert(s.take(i + 1).last() == s[i]);
        assert(all_digits(s.take(i))) by {
            assert(forall|j: int| 0 <= j < i ==> s.take(i)[j] == s[j]);
        }
        lemma_dec_value_nonneg(s.take(i));
        assert(dec_value(s.take(i + 1)) == dec_value(s.take(i)) * 10 + digit_val(s[i]));
        lemma_dec_value_prefix(s, i + 1);
    }
}

/// Parses a decimal numeral the way a 64-bit unsigned parse does: an
/// optional leading '+', one or more digits, and no overflow. Anything
/// else is rejected.
pub fn parse_u64(s: &str) -> (r: Option<u64>)
    ensures
        match r {
            Some(v) => is_u64_numeral(s@) && v == numeral_value(s@),
            None => !is_u64_numeral(s@),
        },
{
    let len = s.unicode_len();
    if len == 0 {
        return None;
    }
    let first = s.get_char(0);
    let start: usize = if first == '+' {
        1
    } else {
        0
    };
    if len == start {
        return None;
    }
    let ghost d: Seq<char> = digits_part(s@);
    proof {
        assert(d =~= s@.skip(start as int));
    }
    let mut v: u64 = 0;
    let mut i: usize = start;
    while i < len
        invariant
            start <= i <= len,
            len == s@.len(),
            start < len,
            d == digits_part(s@),
            d =~= s@.skip(start as int),
            all_digits(d.take(i - start)),
            v == dec_value(d.take(i - start)),
        decreases len - i,
    {
        let c = s.get_char(i);
        let cu = c as u32;
        proof {
            assert(d.take(i - start + 1).drop_last() =~= d.take(i - start));
            assert(d.take(i - start + 1).last() == d[i - start]);
            assert(d[i - start] == s@[i as int]);
        }
        if cu < 48 || cu > 57 {
            proof {
                assert(!is_dec_digit(d[i - start]));
            }
            return None;
        }
        let dv = (cu - 48) as u64;
        let v10 = match v.checked_mul(10) {
            Some(x) => x,
            None => {
                proof {
                    overflow_means_not_numeral(d, i - start, (v as int) * 10 + digit_val(d[i - start]));
                }
                return None;
            },
        };
        let vnew = match v10.checked_add(dv) {
            Some(x) => x,
            None => {
                proof {
                    overflow_means_not_numeral(d, i - start, (v as int) * 10 + digit_val(d[i - start]));
                }
                return None;
            },
        };
        v = vnew;
        i += 1;
    }
    proof {
        assert(d.take(i - start) =~= d);
    }
    Some(v)
}

proof fn overflow_means_not_numeral(d: Seq<char>, j: int, next_val: int)
    requires
        0 <= j < d.len(),
        all_digits(d.take(j)),
        is_dec_digit(d[j]),
        next_val == dec_value(d.take(j)) * 10 + digit_val(d[j]),
        next_val > u64::MAX,
    ensures
        !(all_digits(d) && dec_value(d) <= u64::MAX),
{
    if all_digits(d) {
        assert(d.take(j + 1).drop_last() =~= d.take(j));
        assert(d.take(j + 1).last() == d[j]);
        assert(dec_value(d.take(j + 1)) == next_val);
        lemma_dec_value_prefix(d, j + 1);
    }
}

proof fn lemma_spec_dec_digits(n: nat)
    ensures
        spec_dec(n).len() > 0,
        all_digits(spec_dec(n)),
        dec_value(spec_dec(n)) == n,
    decreases n,
{
    if n < 10 {
        let s = spec_dec(n);
        assert(s =~= seq![spec_digit_char(n as int)]);
        assert(is_dec_digit(s[0]));
        assert(s.drop_last() =~= Seq::<char>::empty());
        assert(dec_value(Seq::<char>::empty()) == 0);
        assert(s.last() == spec_digit_char(n as int));
        assert(dec_value(s) == dec_value(s.drop_last()) * 10 + digit_val(s.last()));
        assert(dec_value(s) == digit_val(spec_digit_char(n as int)));
    } else {
        lemma_spec_dec_digits(n / 10);
        let prefix = spec_dec(n / 10);
        let s = spec_dec(n);
        assert(s == prefix + seq![spec_digit_char((n % 10) as int)]);
        assert(s.drop_last() =~= prefix);
        assert(s.last() == spec_digit_char((n % 10) as int));
        assert forall|i: int| 0 <= i < s.len() implies is_dec_digit(s[i]) by {
            if i < prefix.len() {
                assert(s[i] == prefix[i]);
            }
        }
        assert(dec_value(s) == dec_value(prefix) * 10 + digit_val(spec_digit_char(
            (n % 10) as int,
        )));
    }
}

/// A rendered decimal numeral parses back to the value it was rendered
/// from: the component identifier written on a button always denotes the
/// button's own role id.
pub proof fn lemma_dec_parse_roundtrip(n: u64)
    ensures
        is_u64_numeral(spec_dec(n as nat)),
        numeral_value(spec_dec(n as nat)) == n,
{
    lemma_spec_dec_digits(n as nat);
    let s = spec_dec(n as nat);
    assert(is_dec_digit(s[0]));
    assert(s[0] != '+');
    assert(digits_part(s) == s);
}

/// The concatenation of `parts` with `sep` between consecutive parts.
pub open spec fn spec_join(parts: Seq<Seq<char>>, sep: Seq<char>) -> Seq<char>
    decreases parts.len(),
{
    if parts.len() == 0 {
        Seq::empty()
    } else if parts.len() == 1 {
        parts[0]
    } else {
        spec_join(parts.drop_last(), sep) + sep + parts.last()
    }
}

/// Joins the parts with a line break between consecutive parts.
pub fn join_lines(parts: &Vec<String>) -> (s: String)
    ensures
        s@ == spec_join(parts@.map_values(|p: String| p@), "\n"@),
{
    let ghost views: Seq<Seq<char>> = parts@.map_values(|p: String| p@);
    let mut s = String::new();
    let mut i: usize = 0;
    while i < parts.len()
        invariant
            i <= parts.len(),
            views == parts@.map_values(|p: String| p@),
            views.len() == parts@.len(),
            s@ == spec_join(views.take(i as int), "\n"@),
        decreases parts.len() - i,
    {
        if i > 0 {
            s.append("\n");
        }
        s.append(parts[i].as_str());
        proof {
            assert(views.take(i + 1).drop_last() =~= views.take(i as int));
            assert(views.take(i + 1).last() == views[i as int]);
            if i == 0 {
                assert(s@ =~= spec_join(views.take(i + 1), "\n"@));
            }
        }
        i += 1;
    }
    proof {
        assert(views.take(parts@.len() as int) =~= views);
    }
    s
}

/// Joins the parts with a line break, prefixing each part with `bullet`.
pub fn bulleted_lines(lines: &Vec<String>, bullet: &str) -> (s: String)
    ensures
        s@ == spec_join(lines@.map_values(|l: String| bullet@ + l@), "\n"@),
{
    let ghost views: Seq<Seq<char>> = lines@.map_values(|l: String| bullet@ + l@);
    let mut s = String::new();
    let mut i: usize = 0;
    while i < lines.len()
        invariant
            i <= lines.len(),
            views == lines@.map_values(|l: String| bullet@ + l@),
            views.len() == lines@.len(),
            s@ == spec_join(views.take(i as int), "\n"@),
        decreases lines.len() - i,
    {
        if i > 0 {
            s.append("\n");
        }
        s.append(bullet);
        s.append(lines[i].as_str());
        proof {
            assert(views.take(i + 1).drop_last() =~= views.take(i as int));
            assert(views.take(i + 1).last() == views[i as int]);
            if i == 0 {
                assert(s@ =~= spec_join(views.take(i + 1), "\n"@));
            }
        }
        i += 1;
    }
    proof {
        assert(views.take(lines@.len() as int) =~= views);
    }
    s
}

/// The mention markup for a role id.
pub fn role_mention(role_id: u64) -> (s: String)
    ensures
        s@ == "<@&"@ + spec_dec(role_id as nat) + ">"@,
{
    let mut s = String::from_str("<@&");
    let digits = u64_to_string(role_id);
    s.append(digits.as_str());
    s.append(">");
    s
}

/// The mention markup for a user id.
pub fn user_mention(user_id: u64) -> (s: String)
    ensures
        s@ == "<@"@ + spec_dec(user_id as nat) + ">"@,
{
    let mut s = String::from_str("<@");
    let digits = u64_to_string(user_id);
    s.append(digits.as_str());
    s.append(">");
    s
}

/// The content-delivery URL of an application avatar image.
pub fn avatar_url(application_id: u64, image_hash: &str) -> (s: String)
    ensures
        s@ == "https://cdn.discordapp.com/avatars/"@ + spec_dec(application_id as nat) + "/"@
            + image_hash@ + ".png"@,
{
    let mut s = String::from_str("https://cdn.discordapp.com/avatars/");
    let digits = u64_to_string(application_id);
    s.append(digits.as_str());
    s.append("/");
    s.append(image_hash);
    s.append(".png");
    s
}

/// The content-delivery URL of a guild icon image.
pub fn icon_url(guild_id: u64, image_hash: &str) -> (s: String)
    ensures
        s@ == "https://cdn.discordapp.com/icons/"@ + spec_dec(guild_id as nat) + "/"@
            + image_hash@ + ".png"@,
{
    let mut s = String::from_str("https://cdn.discordapp.com/icons/");
    let digits = u64_to_string(guild_id);
    s.append(digits.as_str());
    s.append("/");
    s.append(image_hash);
    s.append(".png");
    s
}

/// The lowercase image of a character sequence, as the standard library's
/// case folding computes it. The result depends on the characters alone.
pub uninterp spec fn lower_of(s: Seq<char>) -> Seq<char>;

/// Relies on str::to_lowercase from the standard library: "Returns the
/// lowercase equivalent of this string slice, as a new String." The result
/// is a function of the input characters alone.
#[verifier::external_body]
pub(crate) fn lowercase(s: &str) -> (r: String)
    ensures
        r@ == lower_of(s@),
{
    s.to_lowercase()
}

} // verus!
