//! Small verified string utilities shared by the classifier, the spool and
//! the reporting helpers: ASCII case folding, decimal and hexadecimal
//! rendering, and path-component extraction.

use vstd::prelude::*;

verus! {

/// Relies on `String::push`: appends exactly the one character to the string.
#[verifier::external_body]
pub fn push_char(s: &mut String, c: char)
    ensures
        final(s)@ == old(s)@.push(c),
{
    s.push(c)
}

/// ASCII lower-casing of a single character, as a code point.
pub open spec fn lower_ci(c: char) -> int {
    if 'A' <= c && c <= 'Z' {
        c as int + 32
    } else {
        c as int
    }
}

/// Two characters are equal up to ASCII case.
pub open spec fn spec_eq_ci(a: char, b: char) -> bool {
    lower_ci(a) == lower_ci(b)
}

/// Compare two characters ignoring ASCII case.
pub fn eq_ci(a: char, b: char) -> (r: bool)
    ensures
        r == spec_eq_ci(a, b),
{
    let la: u32 = if 'A' <= a && a <= 'Z' { a as u32 + 32 } else { a as u32 };
    let lb: u32 = if 'A' <= b && b <= 'Z' { b as u32 + 32 } else { b as u32 };
    la == lb
}

/// The decimal digit characters.
pub open spec fn digit_char(d: int) -> char {
    seq!['0', '1', '2', '3', '4', '5', '6', '7', '8', '9'][d]
}

/// The lower-case hexadecimal digit characters.
pub open spec fn hex_char(d: int) -> char {
    seq!['0', '1', '2', '3', '4', '5', '6', '7', '8', '9', 'a', 'b', 'c', 'd', 'e', 'f'][d]
}

/// Decimal rendering of a natural number, without leading zeros
/// (except for the number zero itself).
pub open spec fn spec_u64_dec(n: int) -> Seq<char>
    decreases n,
{
    if n < 10 {
        seq![digit_char(n)]
    } else {
        spec_u64_dec(n / 10).push(digit_char(n % 10))
    }
}

fn dec_digit(d: u64) -> (c: char)
    requires
        d < 10,
    ensures
        c == digit_char(d as int),
{
    match d {
        0 => '0',
        1 => '1',
        2 => '2',
        3 => '3',
        4 => '4',
        5 => '5',
        6 => '6',
        7 => '7',
        8 => '8',
        _ => '9',
    }
}

fn hex_digit(d: u32) -> (c: char)
    requires
        d < 16,
    ensures
        c == hex_char(d as int),
{
    match d {
        0 => '0',
        1 => '1',
        2 => '2',
        3 => '3',
        4 => '4',
        5 => '5',
        6 => '6',
        7 => '7',
        8 => '8',
        9 => '9',
        10 => 'a',
        11 => 'b',
        12 => 'c',
        13 => 'd',
        14 => 'e',
        _ => 'f',
    }
}

/// Render a number in decimal.
pub fn u64_to_string(n: u64) -> (r: String)
    ensures
        r@ == spec_u64_dec(n as int),
    decreases n,
{
    if n < 10 {
        let mut s = String::new();
        push_char(&mut s, dec_digit(n));
        assert(s@ =~= spec_u64_dec(n as int));
        s
    } else {
        let mut s = u64_to_string(n / 10);
        push_char(&mut s, dec_digit(n % 10));
        s
    }
}

/// Decimal rendering padded with leading zeros to the given width
/// (the plain rendering when it is already wider).
pub open spec fn spec_padded_dec(n: int, width: int) -> Seq<char>
    decreases width,
{
    if width <= 1 {
        spec_u64_dec(n)
    } else if n < spec_pow10(width - 1) {
        seq!['0'] + spec_padded_dec(n, width - 1)
    } else {
        spec_u64_dec(n)
    }
}

pub open spec fn spec_pow10(k: int) -> int
    decreases k,
{
    if k <= 0 {
        1
    } else {
        10 * spec_pow10(k - 1)
    }
}

/// Render a number in decimal, left-padded with zeros to `width` characters.
pub fn padded_dec(n: u64, width: u64) -> (r: String)
    requires
        width <= 19,
    ensures
        r@ == spec_padded_dec(n as int, width as int),
    decreases width,
{
    if width <= 1 {
        u64_to_string(n)
    } else {
        let bound = pow10(width - 1);
        if n < bound {
            let mut s = String::new();
            push_char(&mut s, '0');
            let rest = padded_dec(n, width - 1);
            let r = s.concat(rest.as_str());
            assert(r@ =~= seq!['0'] + rest@);
            r
        } else {
            u64_to_string(n)
        }
    }
}

fn pow10(k: u64) -> (r: u64)
    requires
        k <= 18,
    ensures
        r == spec_pow10(k as int),
    decreases k,
{
    if k == 0 {
        1
    } else {
        proof {
            lemma_pow10_bound(k as int);
        }
        10 * pow10(k - 1)
    }
}

proof fn lemma_pow10_bound(k: int)
    requires
        0 <= k <= 18,
    ensures
        spec_pow10(k) <= 1000000000000000000,
{
    lemma_pow10_monotone(k, 18);
    reveal_with_fuel(spec_pow10, 20);
    assert(spec_pow10(18) == 1000000000000000000);
}

proof fn lemma_pow10_monotone(a: int, b: int)
    requires
        0 <= a <= b,
    ensures
        spec_pow10(a) <= spec_pow10(b),
        spec_pow10(a) >= 1,
    decreases b,
{
    if a < b {
        lemma_pow10_monotone(a, b - 1);
    } else if a > 0 {
        lemma_pow10_monotone(a - 1, a - 1);
    }
}

/// Fixed-width lower-case hexadecimal rendering.
pub open spec fn spec_hex_fixed(n: int, width: int) -> Seq<char>
    decreases width,
{
    if width <= 0 {
        Seq::<char>::empty()
    } else {
        spec_hex_fixed(n / 16, width - 1).push(hex_char(n % 16))
    }
}

fn hex_fixed(n: u32, width: u64) -> (r: String)
    requires
        width <= 8,
    ensures
        r@ == spec_hex_fixed(n as int, width as int),
        r@.len() == width,
    decreases width,
{
    if width == 0 {
        let s = String::new();
        assert(s@ =~= spec_hex_fixed(n as int, 0));
        s
    } else {
        let mut s = hex_fixed(n / 16, width - 1);
        push_char(&mut s, hex_digit(n % 16));
        s
    }
}

/// Render a 32-bit number as exactly eight lower-case hexadecimal digits.
pub fn hex8(n: u32) -> (r: String)
    ensures
        r@ == spec_hex_fixed(n as int, 8),
        r@.len() == 8,
{
    hex_fixed(n, 8)
}

/// Whether one character sequence begins with another.
pub open spec fn spec_starts_with(s: Seq<char>, prefix: Seq<char>) -> bool {
    prefix.len() <= s.len() && s.subrange(0, prefix.len() as int) == prefix
}

/// Whether the string begins with the given prefix.
pub fn str_starts_with(s: &str, prefix: &str) -> (r: bool)
    ensures
        r == spec_starts_with(s@, prefix@),
{
    let n = prefix.unicode_len();
    if n > s.unicode_len() {
        assert(!spec_starts_with(s@, prefix@));
        return false;
    }
    let mut i: usize = 0;
    while i < n
        invariant
            i <= n,
            n == prefix@.len(),
            n <= s@.len(),
            forall|k: int| 0 <= k < i ==> s@[k] == prefix@[k],
        decreases n - i,
    {
        if s.get_char(i) != prefix.get_char(i) {
            assert(s@.subrange(0, n as int)[i as int] != prefix@[i as int]);
            return false;
        }
        i = i + 1;
    }
    assert(s@.subrange(0, n as int) =~= prefix@);
    true
}

/// Whether two strings hold the same characters.
pub fn str_eq(s: &str, t: &str) -> (r: bool)
    ensures
        r == (s@ == t@),
{
    let n = s.unicode_len();
    if n != t.unicode_len() {
        return false;
    }
    let mut i: usize = 0;
    while i < n
        invariant
            i <= n,
            n == s@.len() == t@.len(),
            forall|k: int| 0 <= k < i ==> s@[k] == t@[k],
        decreases n - i,
    {
        if s.get_char(i) != t.get_char(i) {
            return false;
        }
        i = i + 1;
    }
    assert(s@ =~= t@);
    true
}

/// Compare collected characters against a string, ignoring ASCII case.
pub fn vec_eq_ci_str(v: &Vec<char>, s: &str) -> (r: bool)
    ensures
        r == (v@.len() == s@.len() && (forall|k: int|
            0 <= k < v@.len() ==> spec_eq_ci(v@[k], s@[k]))),
{
    let n = v.len();
    if n != s.unicode_len() {
        return false;
    }
    let mut i: usize = 0;
    while i < n
        invariant
            i <= n,
            n == v@.len() == s@.len(),
            forall|k: int| 0 <= k < i ==> spec_eq_ci(v@[k], s@[k]),
        decreases n - i,
    {
        if !eq_ci(v[i], s.get_char(i)) {
            return false;
        }
        i = i + 1;
    }
    true
}

/// ASCII whitespace, as trimmed from the edges of a token.
pub open spec fn is_space(c: char) -> bool {
    c == ' ' || c == '\t' || c == '\n' || c == '\r'
}

/// Whether the character is a decimal digit.
pub open spec fn spec_is_digit(c: char) -> bool {
    '0' <= c && c <= '9'
}

/// The value of a decimal digit character.
pub open spec fn spec_digit_val(c: char) -> int {
    c as int - '0' as int
}

/// The sequence with trailing ASCII whitespace removed.
pub open spec fn spec_strip_trailing_spaces(s: Seq<char>) -> Seq<char>
    decreases s.len(),
{
    if s.len() > 0 && is_space(s.last()) {
        spec_strip_trailing_spaces(s.drop_last())
    } else {
        s
    }
}

/// The sequence with leading ASCII whitespace removed.
pub open spec fn spec_strip_leading_spaces(s: Seq<char>) -> Seq<char>
    decreases s.len(),
{
    if s.len() > 0 && is_space(s.first()) {
        spec_strip_leading_spaces(s.drop_first())
    } else {
        s
    }
}

/// The sequence with ASCII whitespace removed from both edges.
pub open spec fn spec_trim(s: Seq<char>) -> Seq<char> {
    spec_strip_leading_spaces(spec_strip_trailing_spaces(s))
}

pub fn is_space_char(c: char) -> (r: bool)
    ensures
        r == is_space(c),
{
    c == ' ' || c == '\t' || c == '\n' || c == '\r'
}

pub fn is_digit_char(c: char) -> (r: bool)
    ensures
        r == spec_is_digit(c),
{
    '0' <= c && c <= '9'
}

pub fn digit_val_char(c: char) -> (r: u8)
    requires
        spec_is_digit(c),
    ensures
        r as int == spec_digit_val(c),
        r <= 9,
{
    match c {
        '0' => 0,
        '1' => 1,
        '2' => 2,
        '3' => 3,
        '4' => 4,
        '5' => 5,
        '6' => 6,
        '7' => 7,
        '8' => 8,
        _ => 9,
    }
}

/// The bounds of the trimmed middle of the string: the indices of the first
/// and one-past-last non-whitespace characters.
pub fn trim_bounds(s: &str) -> (r: (usize, usize))
    ensures
        r.0 <= r.1 <= s@.len(),
        spec_trim(s@) == s@.subrange(r.0 as int, r.1 as int),
{
    let len = s.unicode_len();
    let mut end: usize = len;
    proof {
        assert(s@.subrange(0, len as int) =~= s@);
    }
    while end > 0 && is_space_char(s.get_char(end - 1))
        invariant
            end <= len,
            len == s@.len(),
            spec_strip_trailing_spaces(s@) == spec_strip_trailing_spaces(
                s@.subrange(0, end as int),
            ),
        decreases end,
    {
        proof {
            assert(s@.subrange(0, end as int).last() == s@[end - 1]);
            assert(s@.subrange(0, end as int).drop_last() =~= s@.subrange(0, end - 1));
        }
        end = end - 1;
    }
    proof {
        if end > 0 {
            assert(s@.subrange(0, end as int).last() == s@[end - 1]);
        }
        assert(spec_strip_trailing_spaces(s@.subrange(0, end as int)) =~= s@.subrange(
            0,
            end as int,
        ));
    }
    let mut start: usize = 0;
    while start < end && is_space_char(s.get_char(start))
        invariant
            start <= end <= len,
            len == s@.len(),
            spec_strip_trailing_spaces(s@) == s@.subrange(0, end as int),
            spec_strip_leading_spaces(s@.subrange(0, end as int)) == spec_strip_leading_spaces(
                s@.subrange(start as int, end as int),
            ),
        decreases end - start,
    {
        proof {
            assert(s@.subrange(start as int, end as int).first() == s@[start as int]);
            assert(s@.subrange(start as int, end as int).drop_first() =~= s@.subrange(
                start + 1,
                end as int,
            ));
        }
        start = start + 1;
    }
    proof {
        if start < end {
            assert(s@.subrange(start as int, end as int).first() == s@[start as int]);
        }
        assert(spec_strip_leading_spaces(s@.subrange(start as int, end as int)) =~= s@.subrange(
            start as int,
            end as int,
        ));
    }
    (start, end)
}

/// Path separators recognised when extracting a file-name component.
pub open spec fn is_sep(c: char) -> bool {
    c == '/' || c == '\\'
}

/// The sequence with trailing path separators removed.
pub open spec fn spec_strip_trailing_seps(s: Seq<char>) -> Seq<char>
    decreases s.len(),
{
    if s.len() > 0 && is_sep(s.last()) {
        spec_strip_trailing_seps(s.drop_last())
    } else {
        s
    }
}

/// The characters after the last path separator.
pub open spec fn spec_last_component(s: Seq<char>) -> Seq<char>
    decreases s.len(),
{
    if s.len() == 0 {
        s
    } else if is_sep(s.last()) {
        Seq::<char>::empty()
    } else {
        spec_last_component(s.drop_last()).push(s.last())
    }
}

/// The file-name component of a path: the characters after the last
/// separator, once trailing separators are dropped. There is none when that
/// component is empty or is one of the relative markers `.` and `..`.
pub open spec fn spec_file_name(path: Seq<char>) -> Option<Seq<char>> {
    let c = spec_last_component(spec_strip_trailing_seps(path));
    if c.len() == 0 || c == seq!['.'] || c == seq!['.', '.'] {
        Option::None
    } else {
        Option::Some(c)
    }
}

/// Extract the file-name component of a path.
pub fn file_name_of(path: &str) -> (r: Option<String>)
    ensures
        match r {
            Option::Some(name) => spec_file_name(path@) == Option::Some(name@),
            Option::None => spec_file_name(path@) is None,
        },
{
    let len = path.unicode_len();
    let mut end: usize = len;
    proof {
        assert(path@.subrange(0, len as int) =~= path@);
    }
    while end > 0 && is_sep_char(path.get_char(end - 1))
        invariant
            end <= len,
            len == path@.len(),
            spec_strip_trailing_seps(path@) == spec_strip_trailing_seps(
                path@.subrange(0, end as int),
            ),
        decreases end,
    {
        proof {
            assert(path@.subrange(0, end as int).last() == path@[end - 1]);
            assert(path@.subrange(0, end as int).drop_last() =~= path@.subrange(
                0,
                end - 1,
            ));
        }
        end = end - 1;
    }
    proof {
        if end > 0 {
            assert(path@.subrange(0, end as int).last() == path@[end - 1]);
        }
        assert(spec_strip_trailing_seps(path@.subrange(0, end as int)) =~= path@.subrange(
            0,
            end as int,
        ));
    }
    if end == 0 {
        proof {
            assert(path@.subrange(0, 0) =~= Seq::<char>::empty());
        }
        return None;
    }
    let mut start: usize = end;
    while start > 0 && !is_sep_char(path.get_char(start - 1))
        invariant
            start <= end <= len,
            len == path@.len(),
            end > 0 && !is_sep(path@[end - 1]),
            forall|k: int| start <= k < end ==> !is_sep(path@[k]),
        decreases start,
    {
        start = start - 1;
    }
    proof {
        lemma_last_component_run(path@, start as int, end as int);
    }
    let name = path.substring_char(start, end);
    // A component of `.` or `..` does not name a file.
    if str_eq(name, ".") {
        proof {
            reveal_strlit(".");
            assert(name@ =~= seq!['.']);
        }
        return None;
    }
    if str_eq(name, "..") {
        proof {
            reveal_strlit("..");
            assert(name@ =~= seq!['.', '.']);
        }
        return None;
    }
    proof {
        reveal_strlit(".");
        reveal_strlit("..");
        if name@ == seq!['.'] {
            assert(name@ =~= "."@);
        }
        if name@ == seq!['.', '.'] {
            assert(name@ =~= ".."@);
        }
    }
    Some(name.to_owned())
}

fn is_sep_char(c: char) -> (r: bool)
    ensures
        r == is_sep(c),
{
    c == '/' || c == '\\'
}

/// Index `k` is the dot that begins the path's extension: a `.` inside the
/// final component, not component-initial, with nothing after it but the
/// extension characters themselves.
pub open spec fn valid_ext_dot(s: Seq<char>, k: int) -> bool {
    &&& 1 <= k < s.len()
    &&& s[k] == '.'
    &&& !is_sep(s[k - 1])
    &&& forall|j: int| k < j < s.len() ==> s[j] != '.' && !is_sep(s[j])
}

/// The index of the extension dot, if the path has an extension.
pub open spec fn spec_ext_dot(s: Seq<char>) -> Option<int> {
    if exists|k: int| valid_ext_dot(s, k) {
        Option::Some(choose|k: int| valid_ext_dot(s, k))
    } else {
        Option::None
    }
}

/// The extension of the path's final component, without its dot.
pub open spec fn spec_extension(s: Seq<char>) -> Option<Seq<char>> {
    match spec_ext_dot(s) {
        Option::Some(k) => Option::Some(s.subrange(k + 1, s.len() as int)),
        Option::None => Option::None,
    }
}

/// At most one index can begin the extension.
pub proof fn lemma_ext_dot_unique(s: Seq<char>, k1: int, k2: int)
    requires
        valid_ext_dot(s, k1),
        valid_ext_dot(s, k2),
    ensures
        k1 == k2,
{
    if k1 < k2 {
        assert(s[k2] != '.');
    }
    if k2 < k1 {
        assert(s[k1] != '.');
    }
}

/// Find the extension dot of a path.
pub fn ext_dot_index(s: &str) -> (r: Option<usize>)
    ensures
        match r {
            Some(k) => spec_ext_dot(s@) == Option::Some(k as int),
            None => spec_ext_dot(s@) is None,
        },
{
    let len = s.unicode_len();
    let mut j: usize = len;
    loop
        invariant
            j <= len,
            len == s@.len(),
            forall|t: int| j <= t < len ==> s@[t] != '.' && !is_sep(s@[t]),
        decreases j,
    {
        if j == 0 {
            proof {
                if exists|k: int| valid_ext_dot(s@, k) {
                    let k = choose|k: int| valid_ext_dot(s@, k);
                    assert(s@[k] != '.');
                }
            }
            return None;
        }
        let c = s.get_char(j - 1);
        if is_sep_char(c) {
            proof {
                if exists|k: int| valid_ext_dot(s@, k) {
                    let k = choose|k: int| valid_ext_dot(s@, k);
                    if k < j - 1 {
                        assert(!is_sep(s@[j - 1]));
                    } else {
                        assert(s@[k] != '.');
                    }
                }
            }
            return None;
        }
        if c == '.' {
            if j - 1 >= 1 && !is_sep_char(s.get_char(j - 2)) {
                proof {
                    assert(valid_ext_dot(s@, j - 1));
                    let k = choose|k: int| valid_ext_dot(s@, k);
                    lemma_ext_dot_unique(s@, k, j - 1);
                }
                return Some(j - 1);
            } else {
                proof {
                    if exists|k: int| valid_ext_dot(s@, k) {
                        let k = choose|k: int| valid_ext_dot(s@, k);
                        if k < j - 1 {
                            assert(s@[j - 1] != '.');
                        } else {
                            assert(k == j - 1);
                        }
                    }
                }
                return None;
            }
        }
        j = j - 1;
    }
}

// Over a run of non-separator characters ending the sequence, the last
// component is exactly that run.
proof fn lemma_last_component_run(s: Seq<char>, start: int, end: int)
    requires
        0 <= start <= end <= s.len(),
        forall|k: int| start <= k < end ==> !is_sep(s[k]),
        start == 0 || is_sep(s[start - 1]),
    ensures
        spec_last_component(s.subrange(0, end)) == s.subrange(start, end),
    decreases end - start,
{
    let t = s.subrange(0, end);
    if start == end {
        if end == 0 {
            assert(t =~= Seq::<char>::empty());
            assert(spec_last_component(t) =~= s.subrange(start, end));
        } else {
            assert(t.last() == s[end - 1]);
            assert(is_sep(s[end - 1]));
            assert(spec_last_component(t) =~= s.subrange(start, end));
        }
    } else {
        assert(t.last() == s[end - 1]);
        assert(!is_sep(s[end - 1]));
        assert(t.drop_last() =~= s.subrange(0, end - 1));
        lemma_last_component_run(s, start, end - 1);
        assert(spec_last_component(t) == spec_last_component(s.subrange(0, end - 1)).push(
            s[end - 1],
        ));
        assert(spec_last_component(t) =~= s.subrange(start, end));
    }
}

} // verus!
