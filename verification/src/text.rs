use vstd::prelude::*;
use vstd::std_specs::iter::IteratorSpec;

verus! {

broadcast use vstd::string::group_string_axioms;

/// The characters of `s`, in order.
pub fn chars_of(s: &str) -> (v: Vec<char>)
    ensures
        v@ == s@,
{
    let mut it = s.chars();
    let mut v: Vec<char> = Vec::new();
    loop
        invariant
            v@ + it.remaining() == s@,
            it.obeys_prophetic_iter_laws(),
            it.decrease() is Some,
        decreases it.decrease()->0,
    {
        match it.next() {
            Some(c) => {
                v.push(c);
                assert(v@ + it.remaining() =~= s@);
            },
            None => {
                assert(v@ =~= s@);
                return v;
            },
        }
    }
}


/// Unicode `White_Space` property: tab through carriage return, space,
/// next line, no-break space, ogham space mark, en quad through hair space,
/// line and paragraph separators, narrow no-break space, medium mathematical
/// space and ideographic space.
pub open spec fn is_white_space(c: char) -> bool {
    let u = c as u32;
    ||| 0x09 <= u <= 0x0d
    ||| u == 0x20
    ||| u == 0x85
    ||| u == 0xa0
    ||| u == 0x1680
    ||| 0x2000 <= u <= 0x200a
    ||| u == 0x2028
    ||| u == 0x2029
    ||| u == 0x202f
    ||| u == 0x205f
    ||| u == 0x3000
}

/// The characters that `trimnw` strips: white space and NUL.
pub open spec fn is_padding(c: char) -> bool {
    is_white_space(c) || c == '\0'
}

/// `s` with every padding character removed from both ends.
pub open spec fn trimmed(s: Seq<char>) -> Seq<char>
    decreases s.len(),
{
    if s.len() > 0 && is_padding(s[0]) {
        trimmed(s.drop_first())
    } else if s.len() > 0 && is_padding(s.last()) {
        trimmed(s.drop_last())
    } else {
        s
    }
}

/// Whether `c` has the Unicode `White_Space` property.
pub fn white_space(c: char) -> (b: bool)
    ensures
        b == is_white_space(c),
{
    let u = c as u32;
    (0x09 <= u && u <= 0x0d) || u == 0x20 || u == 0x85 || u == 0xa0 || u == 0x1680 || (0x2000
        <= u && u <= 0x200a) || u == 0x2028 || u == 0x2029 || u == 0x202f || u == 0x205f || u
        == 0x3000
}

/// Whether `trimnw` strips `c`.
pub fn padding(c: char) -> (b: bool)
    ensures
        b == is_padding(c),
{
    white_space(c) || c == '\0'
}

/// Dropping a prefix made only of padding does not change the trimmed text.
proof fn lemma_trim_skip_prefix(s: Seq<char>, k: int)
    requires
        0 <= k <= s.len(),
        forall|i: int| 0 <= i < k ==> is_padding(#[trigger] s[i]),
    ensures
        trimmed(s) == trimmed(s.subrange(k, s.len() as int)),
    decreases k,
{
    if k > 0 {
        assert(s.drop_first().subrange(k - 1, s.drop_first().len() as int) =~= s.subrange(
            k,
            s.len() as int,
        ));
        lemma_trim_skip_prefix(s.drop_first(), k - 1);
    } else {
        assert(s.subrange(0, s.len() as int) =~= s);
    }
}

/// For a text that starts with a kept character, dropping a padding suffix
/// does not change the trimmed text.
proof fn lemma_trim_cut_suffix(s: Seq<char>, m: int)
    requires
        1 <= m <= s.len(),
        !is_padding(s[0]),
        forall|i: int| m <= i < s.len() ==> is_padding(#[trigger] s[i]),
    ensures
        trimmed(s) == trimmed(s.subrange(0, m)),
    decreases s.len() - m,
{
    if m < s.len() {
        assert(s.drop_last().subrange(0, m) =~= s.subrange(0, m));
        assert(is_padding(s[s.len() - 1]));
        lemma_trim_cut_suffix(s.drop_last(), m);
    } else {
        assert(s.subrange(0, m) =~= s);
    }
}

/// The bounds of the piece of `cs` that trimming keeps.
pub fn trim_bounds(cs: &[char]) -> (r: (usize, usize))
    ensures
        r.0 <= r.1 <= cs@.len(),
        trimmed(cs@) == cs@.subrange(r.0 as int, r.1 as int),
{
    let n = cs.len();
    let mut i: usize = 0;
    while i < n && padding(cs[i])
        invariant
            i <= n == cs@.len(),
            forall|k: int| 0 <= k < i ==> is_padding(#[trigger] cs@[k]),
        decreases n - i,
    {
        i = i + 1;
    }
    let mut j: usize = n;
    while j > i && padding(cs[j - 1])
        invariant
            i <= j <= n == cs@.len(),
            forall|k: int| j <= k < n ==> is_padding(#[trigger] cs@[k]),
        decreases j,
    {
        j = j - 1;
    }
    proof {
        trimmed_is_inner_piece(cs@, i as int, j as int);
    }
    (i, j)
}

/// Removes white space and NUL characters from both ends of `s`.
pub fn trimnw(s: &str) -> (r: &str)
    ensures
        r@ == trimmed(s@),
{
    let cs = chars_of(s);
    let (i, j) = trim_bounds(cs.as_slice());
    s.substring_char(i, j)
}

/// A string made of the characters `cs`, in order.
#[verifier::external_body]
pub(crate) fn string_from_chars(cs: &[char]) -> (r: String)
    ensures
        r@ == cs@,
{
    cs.iter().collect()
}

/// A string holding the characters `cs[from..to]`.
pub fn string_of_piece(cs: &[char], from: usize, to: usize) -> (r: String)
    requires
        from <= to <= cs@.len(),
    ensures
        r@ == cs@.subrange(from as int, to as int),
{
    let piece = vstd::slice::slice_subrange(cs, from, to);
    string_from_chars(piece)
}

/// A trimmed text neither starts nor ends with white space or NUL.
pub proof fn trimmed_has_no_padding_at_ends(s: Seq<char>)
    ensures
        trimmed(s).len() > 0 ==> !is_padding(trimmed(s)[0]) && !is_padding(trimmed(s).last()),
    decreases s.len(),
{
    if s.len() > 0 && is_padding(s[0]) {
        trimmed_has_no_padding_at_ends(s.drop_first());
    } else if s.len() > 0 && is_padding(s.last()) {
        trimmed_has_no_padding_at_ends(s.drop_last());
    }
}

/// Trimming keeps exactly the piece of the text between the padding at its
/// start and the padding at its end: the piece from the first kept character
/// to the last one.
pub proof fn trimmed_is_inner_piece(s: Seq<char>, i: int, j: int)
    requires
        0 <= i <= j <= s.len(),
        forall|k: int| 0 <= k < i ==> is_padding(#[trigger] s[k]),
        forall|k: int| j <= k < s.len() ==> is_padding(#[trigger] s[k]),
        i < j ==> !is_padding(s[i]) && !is_padding(s[j - 1]),
    ensures
        trimmed(s) == s.subrange(i, j),
{
    lemma_trim_skip_prefix(s, i);
    let t = s.subrange(i, s.len() as int);
    if i < j {
        assert(t[0] == s[i]);
        assert forall|k: int| j - i <= k < t.len() implies is_padding(#[trigger] t[k]) by {
            assert(t[k] == s[k + i]);
        }
        lemma_trim_cut_suffix(t, j - i);
        let u = t.subrange(0, j - i);
        assert(u =~= s.subrange(i, j));
        assert(u[0] == s[i]);
        assert(u.last() == s[j - 1]);
    } else {
        lemma_trim_skip_prefix(s, s.len() as int);
        assert(s.subrange(s.len() as int, s.len() as int) =~= s.subrange(i, j));
    }
}

/// `s` with white space removed from both ends: what `str::trim` is
/// documented to give (white space being the Unicode `White_Space`
/// property).
pub open spec fn white_space_trimmed(s: Seq<char>) -> Seq<char>
    decreases s.len(),
{
    if s.len() > 0 && is_white_space(s[0]) {
        white_space_trimmed(s.drop_first())
    } else if s.len() > 0 && is_white_space(s.last()) {
        white_space_trimmed(s.drop_last())
    } else {
        s
    }
}

/// Dropping a padding character at the end does not change the trimmed text.
proof fn lemma_trim_drop_last(s: Seq<char>)
    requires
        s.len() > 0,
        is_padding(s.last()),
    ensures
        trimmed(s) == trimmed(s.drop_last()),
    decreases s.len(),
{
    if is_padding(s[0]) && s.len() > 1 {
        let t = s.drop_first();
        assert(t.last() == s.last());
        lemma_trim_drop_last(t);
        assert(t.drop_last() =~= s.drop_last().drop_first());
        assert(s.drop_last()[0] == s[0]);
    } else if s.len() == 1 {
        assert(s.drop_first() =~= s.drop_last());
    }
}

/// `trimnw` differs from `str::trim` only in also removing NUL: trimming
/// after a white space trim gives the same text, and text without NUL is
/// trimmed exactly as `str::trim` does.
pub proof fn trim_and_white_space_trim(s: Seq<char>)
    ensures
        trimmed(white_space_trimmed(s)) == trimmed(s),
        !s.contains('\0') ==> trimmed(s) == white_space_trimmed(s),
    decreases s.len(),
{
    if s.len() > 0 && is_white_space(s[0]) {
        trim_and_white_space_trim(s.drop_first());
        if !s.contains('\0') {
            assert(!s.drop_first().contains('\0')) by {
                if s.drop_first().contains('\0') {
                    let k = choose|k: int| 0 <= k < s.drop_first().len() && s.drop_first()[k] == '\0';
                    assert(s[k + 1] == '\0');
                }
            }
        }
    } else if s.len() > 0 && is_white_space(s.last()) {
        trim_and_white_space_trim(s.drop_last());
        lemma_trim_drop_last(s);
        if !s.contains('\0') {
            assert(!s.drop_last().contains('\0')) by {
                if s.drop_last().contains('\0') {
                    let k = choose|k: int| 0 <= k < s.drop_last().len() && s.drop_last()[k] == '\0';
                    assert(s[k] == '\0');
                }
            }
            assert(s[0] != '\0');
        }
    } else if s.len() > 0 && !s.contains('\0') {
        assert(s[0] != '\0');
        assert(s[s.len() - 1] != '\0');
    }
}

/// Trimming twice gives the same text as trimming once.
pub proof fn trim_is_idempotent(s: Seq<char>)
    ensures
        trimmed(trimmed(s)) == trimmed(s),
{
    trimmed_has_no_padding_at_ends(s);
}


/// Whether `c` is one of the ASCII digits `0` to `9`.
pub open spec fn is_digit(c: char) -> bool {
    '0' <= c <= '9'
}

/// The value of the ASCII digit `c`.
pub open spec fn digit_value(c: char) -> nat {
    (c as u32 - '0' as u32) as nat
}

/// The ASCII digit that stands for `d` (below ten).
pub open spec fn digit_char(d: nat) -> char {
    (d + '0' as u32) as char
}

/// Whether every character of `s` is an ASCII digit.
pub open spec fn all_digits(s: Seq<char>) -> bool {
    forall|i: int| 0 <= i < s.len() ==> is_digit(#[trigger] s[i])
}

/// The number that the digits `s` spell in base ten.
pub open spec fn decimal_value(s: Seq<char>) -> nat
    decreases s.len(),
{
    if s.len() == 0 {
        0
    } else {
        decimal_value(s.drop_last()) * 10 + digit_value(s.last())
    }
}

/// The base-ten digits of `n`, most significant first, without leading zeros
/// (`0` is the single digit `0`).
pub open spec fn decimal_text(n: nat) -> Seq<char>
    decreases n,
{
    if n < 10 {
        seq![digit_char(n)]
    } else {
        decimal_text(n / 10).push(digit_char(n % 10))
    }
}

/// What reading `s` as an unsigned machine-size integer yields: an optional
/// `+` followed by one or more ASCII digits whose value fits in `usize`.
pub open spec fn parsed_usize(s: Seq<char>) -> Option<usize> {
    let digits = if s.len() > 0 && s[0] == '+' {
        s.drop_first()
    } else {
        s
    };
    if digits.len() > 0 && all_digits(digits) && decimal_value(digits) <= usize::MAX {
        Some(decimal_value(digits) as usize)
    } else {
        None
    }
}

/// A string that holds the single digit `d`.
fn digit_str(d: usize) -> (r: &'static str)
    requires
        d < 10,
    ensures
        r@ == seq![digit_char(d as nat)],
{
    proof {
        reveal_strlit("0");
        reveal_strlit("1");
        reveal_strlit("2");
        reveal_strlit("3");
        reveal_strlit("4");
        reveal_strlit("5");
        reveal_strlit("6");
        reveal_strlit("7");
        reveal_strlit("8");
        reveal_strlit("9");
    }
    let r = if d == 0 {
        "0"
    } else if d == 1 {
        "1"
    } else if d == 2 {
        "2"
    } else if d == 3 {
        "3"
    } else if d == 4 {
        "4"
    } else if d == 5 {
        "5"
    } else if d == 6 {
        "6"
    } else if d == 7 {
        "7"
    } else if d == 8 {
        "8"
    } else {
        "9"
    };
    assert(r@ =~= seq![digit_char(d as nat)]);
    r
}

/// The base-ten text of `n`.
pub fn decimal(n: u64) -> (r: String)
    ensures
        r@ == decimal_text(n as nat),
    decreases n,
{
    if n < 10 {
        String::from_str(digit_str(n as usize))
    } else {
        let mut r = decimal(n / 10);
        r.append(digit_str((n % 10) as usize));
        r
    }
}

/// The base-ten text of the integer `v`, with a leading `-` when it is
/// negative.
pub open spec fn integer_text(v: int) -> Seq<char> {
    if v < 0 {
        seq!['-'] + decimal_text((-v) as nat)
    } else {
        decimal_text(v as nat)
    }
}

/// The base-ten text of `v`, with a leading `-` when it is negative.
pub fn integer(v: i64) -> (r: String)
    ensures
        r@ == integer_text(v as int),
{
    if v < 0 {
        let m: u64 = (-(v as i128)) as u64;
        let mut r = String::from_str("-");
        proof {
            reveal_strlit("-");
        }
        r.append(decimal(m).as_str());
        assert(r@ =~= seq!['-'] + decimal_text(m as nat));
        r
    } else {
        decimal(v as u64)
    }
}

/// The value of a run of digits is at least the value of any prefix of it.
proof fn lemma_decimal_prefix_le(s: Seq<char>, k: int)
    requires
        0 <= k <= s.len(),
        all_digits(s),
    ensures
        decimal_value(s.take(k)) <= decimal_value(s),
    decreases s.len(),
{
    if k < s.len() {
        let t = s.drop_last();
        assert(t.take(k) =~= s.take(k));
        lemma_decimal_prefix_le(t, k);
    } else {
        assert(s.take(k) =~= s);
    }
}

/// Reads `s` as an unsigned machine-size integer in base ten, accepting an
/// optional leading `+`.
pub fn parse_usize(s: &str) -> (r: Option<usize>)
    ensures
        r == parsed_usize(s@),
{
    let cs = chars_of(s);
    let n = cs.len();
    let start: usize = if n > 0 && cs[0] == '+' {
        1
    } else {
        0
    };
    let ghost digits = if s@.len() > 0 && s@[0] == '+' {
        s@.drop_first()
    } else {
        s@
    };
    assert(digits =~= s@.subrange(start as int, n as int));
    if start == n {
        return None;
    }
    let mut value: usize = 0;
    let mut i: usize = start;
    while i < n
        invariant
            start <= i <= n == cs@.len(),
            cs@ == s@,
            start < n,
            digits == s@.subrange(start as int, n as int),
            digits == (if s@.len() > 0 && s@[0] == '+' {
                s@.drop_first()
            } else {
                s@
            }),
            all_digits(digits.take(i - start)),
            value == decimal_value(digits.take(i - start)),
        decreases n - i,
    {
        let c = cs[i];
        let ghost before = digits.take(i - start);
        assert(digits.take(i - start + 1).drop_last() =~= before);
        if !('0' <= c && c <= '9') {
            assert(!is_digit(digits[i - start]));
            return None;
        }
        let d = (c as u32 - '0' as u32) as usize;
        assert(d == digit_value(c));
        if value > (usize::MAX - d) / 10 {
            proof {
                let m = usize::MAX - d;
                assert(value * 10 + d > usize::MAX) by (nonlinear_arith)
                    requires
                        value > m / 10,
                        m == usize::MAX - d,
                        m >= 0,
                ;
                if all_digits(digits) {
                    lemma_decimal_prefix_le(digits, i - start + 1);
                }
            }
            return None;
        }
        proof {
            let m = usize::MAX - d;
            assert(value * 10 + d <= usize::MAX) by (nonlinear_arith)
                requires
                    value <= m / 10,
                    m == usize::MAX - d,
                    m >= 0,
            ;
        }
        value = value * 10 + d;
        i = i + 1;
        assert(all_digits(digits.take(i - start)));
    }
    assert(digits.take(n - start) =~= digits);
    Some(value)
}

} // verus!
