//! Classification and normalization of number-format codes, and display
//! truncation.
//!
//! A format code that contains a year, month, day, hour or meridiem token is
//! a date/time format, except for the two sentinel codes ("General" and the
//! text sentinel "@"), which never are. A date/time code is normalized to one
//! of three canonical patterns before formatting: date+time, time-only, or
//! date-only.
use vstd::prelude::*;
use vstd::string::StrSliceExecFns;

verus! {

/// The sentinel format code that applies no transformation.
pub open spec fn general_code() -> Seq<char> {
    "General"@
}

/// The sentinel format code for text cells.
pub open spec fn text_code() -> Seq<char> {
    "@"@
}

/// Whether the character is a year, month, day or hour token.
pub open spec fn is_date_token_char(c: char) -> bool {
    c == 'y' || c == 'Y' || c == 'm' || c == 'M' || c == 'd' || c == 'D' || c == 'h' || c == 'H'
}

/// Whether the character is an hour token.
pub open spec fn is_hour_char(c: char) -> bool {
    c == 'h' || c == 'H'
}

/// Whether the character is a year or day token.
pub open spec fn is_year_or_day_char(c: char) -> bool {
    c == 'y' || c == 'Y' || c == 'd' || c == 'D'
}

/// Whether the code contains any date/time token character.
pub open spec fn has_date_char(s: Seq<char>) -> bool {
    exists|i: int| 0 <= i < s.len() && is_date_token_char(s[i])
}

/// Whether the code contains an hour token.
pub open spec fn has_hour_char(s: Seq<char>) -> bool {
    exists|i: int| 0 <= i < s.len() && is_hour_char(s[i])
}

/// Whether the code contains a year or day token.
pub open spec fn has_year_or_day_char(s: Seq<char>) -> bool {
    exists|i: int| 0 <= i < s.len() && is_year_or_day_char(s[i])
}

/// Whether the code contains an "am" or "pm" meridiem marker, in any case.
pub open spec fn has_meridiem(s: Seq<char>) -> bool {
    exists|i: int|
        0 <= i && i + 1 < s.len() && (#[trigger] s[i] == 'a' || s[i] == 'A' || s[i] == 'p' || s[i]
            == 'P') && (s[i + 1] == 'm' || s[i + 1] == 'M')
}

/// Whether the format code is a date/time format: not one of the two
/// sentinel codes, and holding a date/time token or a meridiem marker.
pub open spec fn is_date_code(s: Seq<char>) -> bool {
    &&& s != general_code()
    &&& s != text_code()
    &&& (has_date_char(s) || has_meridiem(s))
}

/// The canonical pattern a date/time code is normalized to: date+time when
/// both date and time tokens are present, time-only when only time tokens
/// are, date-only otherwise.
pub open spec fn normalized_date_code(s: Seq<char>) -> Seq<char> {
    if has_hour_char(s) || has_meridiem(s) {
        if has_year_or_day_char(s) {
            "yyyy-mm-dd hh:mm:ss"@
        } else {
            "hh:mm:ss"@
        }
    } else {
        "yyyy-mm-dd"@
    }
}

/// What a display string of the given width shows: the text itself if it
/// fits, else its first width-1 characters with a truncation marker.
pub open spec fn truncate_display(s: Seq<char>, width: int) -> Seq<char> {
    if s.len() > width {
        s.subrange(0, if width >= 1 { width - 1 } else { 0 }) + "~"@
    } else {
        s
    }
}

/// A format-code character the numeric formatter handles without surprises:
/// digits, the digit placeholder, decimal point, group separator, percent
/// and currency marks, minus, space and the section separator. Quoted
/// literals, escapes, brackets and fraction marks are left to the fallback.
pub open spec fn is_plain_format_char(c: char) -> bool {
    ('0' <= c && c <= '9') || c == '#' || c == '.' || c == ',' || c == '%' || c == '$' || c == '-'
        || c == ' ' || c == ';'
}

/// How many of the first `n` characters equal `c`.
pub open spec fn char_count(s: Seq<char>, n: int, c: char) -> int
    decreases n,
{
    if n <= 0 {
        0
    } else {
        char_count(s, n - 1, c) + if s[n - 1] == c {
            1int
        } else {
            0int
        }
    }
}

/// A numeric format code tame enough to hand to the document's formatter:
/// plain formatting characters only, with at most three group separators
/// (the scale shorthand grows thousandfold per separator) and at most four
/// section separators (five sections is the formatter's own ceiling).
pub open spec fn plain_numeric_code(s: Seq<char>) -> bool {
    &&& forall|i: int| 0 <= i < s.len() ==> is_plain_format_char(#[trigger] s[i])
    &&& char_count(s, s.len() as int, ',') <= 3
    &&& char_count(s, s.len() as int, ';') <= 4
}

/// Whether the code is tame enough to hand to the document's formatter.
pub fn is_plain_numeric_code(s: &str) -> (r: bool)
    ensures
        r == plain_numeric_code(s@),
{
    let n = s.unicode_len();
    let mut commas: usize = 0;
    let mut sections: usize = 0;
    let mut i: usize = 0;
    while i < n
        invariant
            i <= n,
            n == s@.len(),
            commas <= i,
            sections <= i,
            commas == char_count(s@, i as int, ','),
            sections == char_count(s@, i as int, ';'),
            forall|k: int| 0 <= k < i ==> is_plain_format_char(#[trigger] s@[k]),
        decreases n - i,
    {
        let c = s.get_char(i);
        if !(('0' <= c && c <= '9') || c == '#' || c == '.' || c == ',' || c == '%' || c == '$'
            || c == '-' || c == ' ' || c == ';') {
            return false;
        }
        if c == ',' {
            commas += 1;
        }
        if c == ';' {
            sections += 1;
        }
        i += 1;
    }
    commas <= 3 && sections <= 4
}

/// The numeric value of the first `n` characters read as decimal digits.
pub open spec fn dec_prefix_val(s: Seq<char>, n: int) -> int
    decreases n,
{
    if n <= 0 {
        0
    } else {
        dec_prefix_val(s, n - 1) * 10 + (s[n - 1] as int - 48)
    }
}

/// 10 to the power `n`.
pub open spec fn pow10(n: nat) -> int
    decreases n,
{
    if n == 0 {
        1
    } else {
        10 * pow10((n - 1) as nat)
    }
}

proof fn lemma_pow10_le(a: nat, b: nat)
    requires
        a <= b,
    ensures
        pow10(a) <= pow10(b),
        pow10(a) >= 1,
    decreases b,
{
    if b > 0 {
        if a == b {
            lemma_pow10_le((a - 1) as nat, (b - 1) as nat);
        } else {
            lemma_pow10_le(a, (b - 1) as nat);
        }
    }
}

proof fn lemma_dec_prefix_bound(s: Seq<char>, n: int)
    requires
        n >= 0,
        forall|i: int| 0 <= i < n ==> '0' <= #[trigger] s[i] <= '9',
    ensures
        0 <= dec_prefix_val(s, n) < pow10(n as nat),
    decreases n,
{
    if n > 0 {
        lemma_dec_prefix_bound(s, n - 1);
    }
}

/// The highest day number the date renderer accepts (the last day of year
/// 9999 in the document's day counting).
pub const MAX_DATE_SERIAL: u32 = 2958465;

/// One admissible reading of the value as a day number, cut at position `k`:
/// one to seven integer digits, then either the end or a decimal point
/// followed by digits for the time of day. The integer part stays within the
/// date ceiling, and strictly below it when a fraction follows: the time of
/// day may round up to the next whole day, which must still be renderable.
pub open spec fn date_serial_cut(s: Seq<char>, k: int) -> bool {
    &&& 1 <= k <= 7
    &&& k <= s.len()
    &&& (k == s.len() || s[k] == '.')
    &&& (forall|i: int| 0 <= i < k ==> '0' <= #[trigger] s[i] <= '9')
    &&& (forall|i: int| k < i < s.len() ==> '0' <= #[trigger] s[i] <= '9')
    &&& dec_prefix_val(s, k) <= if k == s.len() {
        MAX_DATE_SERIAL as int
    } else {
        MAX_DATE_SERIAL - 1
    }
}

/// A raw value in the shape of a renderable day number. Values of any other
/// shape are not dates the renderer can place.
pub open spec fn spec_date_serial(s: Seq<char>) -> bool {
    exists|k: int| date_serial_cut(s, k)
}

proof fn lemma_serial_cut_at_digit_prefix(s: Seq<char>, d: int, k: int)
    requires
        0 <= d <= s.len(),
        forall|i: int| 0 <= i < d ==> '0' <= #[trigger] s[i] <= '9',
        d < s.len() ==> !('0' <= s[d] <= '9'),
        date_serial_cut(s, k),
    ensures
        k == d,
{
    if k < d {
        assert('0' <= s[k] <= '9');
    }
    if k > d {
        assert('0' <= s[d] <= '9');
    }
}

/// Whether the raw value is a renderable day number.
pub fn is_date_serial(s: &str) -> (r: bool)
    ensures
        r == spec_date_serial(s@),
{
    let n = s.unicode_len();
    let mut d: usize = 0;
    while d < n
        invariant
            d <= n,
            n == s@.len(),
            forall|k: int| 0 <= k < d ==> '0' <= #[trigger] s@[k] <= '9',
        ensures
            d <= n,
            forall|k: int| 0 <= k < d ==> '0' <= #[trigger] s@[k] <= '9',
            d < n ==> !('0' <= s@[d as int] <= '9'),
        decreases n - d,
    {
        let c = s.get_char(d);
        if !('0' <= c && c <= '9') {
            break;
        }
        d += 1;
    }
    if d < 1 || d > 7 {
        proof {
            if spec_date_serial(s@) {
                let k = choose|k: int| date_serial_cut(s@, k);
                lemma_serial_cut_at_digit_prefix(s@, d as int, k);
            }
        }
        return false;
    }
    let mut value: u32 = 0;
    let mut i: usize = 0;
    proof {
        assert(pow10(7) == 10000000) by {
            reveal_with_fuel(pow10, 8);
        }
    }
    while i < d
        invariant
            i <= d,
            d <= 7,
            d <= n,
            n == s@.len(),
            forall|k: int| 0 <= k < d ==> '0' <= #[trigger] s@[k] <= '9',
            value == dec_prefix_val(s@, i as int),
            value < pow10(i as nat),
            pow10(7) == 10000000,
        decreases d - i,
    {
        let c = s.get_char(i);
        proof {
            assert(pow10((i + 1) as nat) == 10 * pow10(i as nat));
            lemma_pow10_le((i + 1) as nat, 7);
            lemma_dec_prefix_bound(s@, i as int);
            assert('0' <= s@[i as int] <= '9');
        }
        value = value * 10 + ((c as u32) - 48);
        i += 1;
    }
    if d == n {
        if value > MAX_DATE_SERIAL {
            proof {
                if spec_date_serial(s@) {
                    let k = choose|k: int| date_serial_cut(s@, k);
                    lemma_serial_cut_at_digit_prefix(s@, d as int, k);
                }
            }
            return false;
        }
        proof {
            assert(date_serial_cut(s@, d as int));
        }
        return true;
    }
    if value > MAX_DATE_SERIAL - 1 {
        proof {
            if spec_date_serial(s@) {
                let k = choose|k: int| date_serial_cut(s@, k);
                lemma_serial_cut_at_digit_prefix(s@, d as int, k);
            }
        }
        return false;
    }
    let dot = s.get_char(d);
    if dot != '.' {
        proof {
            if spec_date_serial(s@) {
                let k = choose|k: int| date_serial_cut(s@, k);
                lemma_serial_cut_at_digit_prefix(s@, d as int, k);
            }
        }
        return false;
    }
    let mut j: usize = d + 1;
    while j < n
        invariant
            d < j <= n,
            d <= 7,
            n == s@.len(),
            s@[d as int] == '.',
            forall|k: int| 0 <= k < d ==> '0' <= #[trigger] s@[k] <= '9',
            d < n ==> !('0' <= s@[d as int] <= '9'),
            forall|k: int| d < k < j ==> '0' <= #[trigger] s@[k] <= '9',
        decreases n - j,
    {
        let c = s.get_char(j);
        if !('0' <= c && c <= '9') {
            proof {
                if spec_date_serial(s@) {
                    let k = choose|k: int| date_serial_cut(s@, k);
                    lemma_serial_cut_at_digit_prefix(s@, d as int, k);
                }
            }
            return false;
        }
        j += 1;
    }
    proof {
        assert(date_serial_cut(s@, d as int));
    }
    true
}

/// The upper-case alphabet the column labels draw from.
pub open spec fn column_alphabet() -> Seq<char> {
    "ABCDEFGHIJKLMNOPQRSTUVWXYZ"@
}

/// The bijective base-26 letter label of a 1-based column number: column 1
/// is "A", 26 is "Z", 27 is "AA"; 0 gives the empty label.
pub open spec fn column_letters(n: int) -> Seq<char>
    decreases n,
{
    if n <= 0 {
        Seq::empty()
    } else {
        column_letters((n - 1) / 26) + seq![column_alphabet()[(n - 1) % 26]]
    }
}

/// The letter label of a 1-based column number, as shown in the grid header.
pub fn number_to_column(n: u32) -> (r: String)
    ensures
        r@ == column_letters(n as int),
{
    let alphabet = "ABCDEFGHIJKLMNOPQRSTUVWXYZ";
    proof {
        reveal_strlit("ABCDEFGHIJKLMNOPQRSTUVWXYZ");
    }
    let ghost n0 = n as int;
    let mut n = n;
    let mut result = String::new();
    proof {
        assert(column_letters(n0) =~= column_letters(n as int) + result@);
    }
    while n > 0
        invariant
            alphabet@ == column_alphabet(),
            alphabet@.len() == 26,
            column_letters(n0) == column_letters(n as int) + result@,
        decreases n,
    {
        let rem = ((n - 1) % 26) as usize;
        let letter = alphabet.substring_char(rem, rem + 1);
        proof {
            assert(letter@ =~= seq![column_alphabet()[(n - 1) % 26]]);
            vstd::arithmetic::div_mod::lemma_div_is_ordered_by_denominator(
                (n - 1) as int,
                1,
                26,
            );
            vstd::arithmetic::div_mod::lemma_div_nonincreasing((n - 1) as int, 26);
            assert(column_letters(n0) =~= column_letters(((n - 1) / 26) as int) + (letter@
                + result@));
        }
        result = String::from_str(letter).concat(result.as_str());
        n = (n - 1) / 26;
    }
    proof {
        assert(column_letters(n0) =~= result@);
    }
    result
}

/// Whether two strings hold the same characters.
pub fn str_eq(a: &str, b: &str) -> (r: bool)
    ensures
        r == (a@ == b@),
{
    let na = a.unicode_len();
    let nb = b.unicode_len();
    if na != nb {
        return false;
    }
    let mut i: usize = 0;
    while i < na
        invariant
            i <= na,
            na == a@.len(),
            na == b@.len(),
            forall|k: int| 0 <= k < i ==> a@[k] == b@[k],
        decreases na - i,
    {
        if a.get_char(i) != b.get_char(i) {
            return false;
        }
        i += 1;
    }
    proof {
        assert(a@ =~= b@);
    }
    true
}

fn scan_date_char(s: &str) -> (r: bool)
    ensures
        r == has_date_char(s@),
{
    let n = s.unicode_len();
    let mut i: usize = 0;
    while i < n
        invariant
            i <= n,
            n == s@.len(),
            forall|k: int| 0 <= k < i ==> !is_date_token_char(s@[k]),
        decreases n - i,
    {
        let c = s.get_char(i);
        if c == 'y' || c == 'Y' || c == 'm' || c == 'M' || c == 'd' || c == 'D' || c == 'h' || c
            == 'H' {
            return true;
        }
        i += 1;
    }
    false
}

fn scan_hour_char(s: &str) -> (r: bool)
    ensures
        r == has_hour_char(s@),
{
    let n = s.unicode_len();
    let mut i: usize = 0;
    while i < n
        invariant
            i <= n,
            n == s@.len(),
            forall|k: int| 0 <= k < i ==> !is_hour_char(s@[k]),
        decreases n - i,
    {
        let c = s.get_char(i);
        if c == 'h' || c == 'H' {
            return true;
        }
        i += 1;
    }
    false
}

fn scan_year_or_day_char(s: &str) -> (r: bool)
    ensures
        r == has_year_or_day_char(s@),
{
    let n = s.unicode_len();
    let mut i: usize = 0;
    while i < n
        invariant
            i <= n,
            n == s@.len(),
            forall|k: int| 0 <= k < i ==> !is_year_or_day_char(s@[k]),
        decreases n - i,
    {
        let c = s.get_char(i);
        if c == 'y' || c == 'Y' || c == 'd' || c == 'D' {
            return true;
        }
        i += 1;
    }
    false
}

fn scan_meridiem(s: &str) -> (r: bool)
    ensures
        r == has_meridiem(s@),
{
    let n = s.unicode_len();
    if n < 2 {
        return false;
    }
    let mut i: usize = 0;
    while i + 1 < n
        invariant
            i + 1 <= n,
            n == s@.len(),
            n >= 2,
            forall|k: int|
                0 <= k < i ==> !((#[trigger] s@[k] == 'a' || s@[k] == 'A' || s@[k] == 'p' || s@[k]
                    == 'P') && (s@[k + 1] == 'm' || s@[k + 1] == 'M')),
        decreases n - i,
    {
        let c = s.get_char(i);
        let d = s.get_char(i + 1);
        if (c == 'a' || c == 'A' || c == 'p' || c == 'P') && (d == 'm' || d == 'M') {
            return true;
        }
        i += 1;
    }
    false
}

/// Whether a format code is a date/time format.
pub fn is_date_format(format_code: &str) -> (r: bool)
    ensures
        r == is_date_code(format_code@),
{
    if str_eq(format_code, "General") || str_eq(format_code, "@") {
        return false;
    }
    scan_date_char(format_code) || scan_meridiem(format_code)
}

/// The canonical pattern a date/time format code is normalized to.
pub fn normalize_date_format(format_code: &str) -> (r: &'static str)
    ensures
        r@ == normalized_date_code(format_code@),
{
    if scan_hour_char(format_code) || scan_meridiem(format_code) {
        if scan_year_or_day_char(format_code) {
            "yyyy-mm-dd hh:mm:ss"
        } else {
            "hh:mm:ss"
        }
    } else {
        "yyyy-mm-dd"
    }
}

} // verus!
