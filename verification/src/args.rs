use vstd::prelude::*;

use crate::address::result_view;
use crate::text::{
    all_digits, chars_of, decimal, decimal_text, decimal_value, digit_char, parse_usize, parsed_usize,
    string_of_piece,
};

verus! {

/// What checking a worker count gives: the count when `s` reads as one that
/// the machine's `cores` can run, otherwise the message that says why not.
pub open spec fn worker_count_check(s: Seq<char>, cores: usize) -> Result<usize, Seq<char>> {
    match parsed_usize(s) {
        None => Err(s + " is not a valid integer"@),
        Some(n) => if n <= cores {
            Ok(n)
        } else {
            Err("You specified "@ + decimal_text(n as nat) + " workers, but your machine only has "@
                + decimal_text(cores as nat) + " cores"@)
        },
    }
}

/// Checks the number of concurrent workers asked for in `s` against the
/// number of `cores` of the machine.
pub fn allowed_threads(s: &str, cores: usize) -> (r: Result<usize, String>)
    ensures
        match r {
            Ok(n) => worker_count_check(s@, cores) == Ok::<usize, Seq<char>>(n),
            Err(m) => worker_count_check(s@, cores) == Err::<usize, Seq<char>>(m@),
        },
{
    match parse_usize(s) {
        None => {
            let mut m = String::from_str(s);
            m.append(" is not a valid integer");
            Err(m)
        },
        Some(n) => {
            if n <= cores {
                Ok(n)
            } else {
                let mut m = String::from_str("You specified ");
                m.append(decimal(n as u64).as_str());
                m.append(" workers, but your machine only has ");
                m.append(decimal(cores as u64).as_str());
                m.append(" cores");
                Err(m)
            }
        },
    }
}


/// Whether every platform splits the path `p` only at `/`: it holds no `\`
/// and no `:`, and does not start with `//`, so that no platform reads a
/// drive, server or verbatim prefix in it.
pub open spec fn splits_at_slashes_only(p: Seq<char>) -> bool {
    &&& !p.contains('\\')
    &&& !p.contains(':')
    &&& !(p.len() >= 2 && p[0] == '/' && p[1] == '/')
}

/// The pieces of `p` between slashes: one more piece than `p` has slashes.
pub open spec fn path_pieces(p: Seq<char>) -> Seq<Seq<char>>
    decreases p.len(),
{
    if p.len() == 0 {
        seq![Seq::empty()]
    } else {
        let prev = path_pieces(p.drop_last());
        if p.last() == '/' {
            prev.push(Seq::empty())
        } else {
            prev.update(prev.len() - 1, prev.last().push(p.last()))
        }
    }
}

/// The last of `pieces` that is neither empty nor `.`, if any.
pub open spec fn last_component(pieces: Seq<Seq<char>>) -> Option<Seq<char>>
    decreases pieces.len(),
{
    if pieces.len() == 0 {
        None
    } else if pieces.last().len() == 0 || pieces.last() == "."@ {
        last_component(pieces.drop_last())
    } else {
        Some(pieces.last())
    }
}

/// The file name of a path that splits at slashes only: its last component,
/// where empty components and `.` are skipped, unless that is `..` or there
/// is none.
pub open spec fn path_file_name(p: Seq<char>) -> Option<Seq<char>> {
    match last_component(path_pieces(p)) {
        Some(n) => if n == ".."@ {
            None
        } else {
            Some(n)
        },
        None => None,
    }
}

/// The extension of a path that splits at slashes only: that of its file
/// name.
pub open spec fn path_extension_of(p: Seq<char>) -> Option<Seq<char>> {
    match path_file_name(p) {
        Some(n) => extension_of_name(n),
        None => None,
    }
}

/// The index of the last `c` in `p`, or -1 when there is none.
pub open spec fn last_index_of(p: Seq<char>, c: char) -> int
    decreases p.len(),
{
    if p.len() == 0 {
        -1
    } else if p.last() == c {
        p.len() - 1
    } else {
        last_index_of(p.drop_last(), c)
    }
}

/// The extension of the file name `p`: what follows its last `.`, unless it
/// has no `.` or its only `.` is its first character.
pub open spec fn extension_of_name(p: Seq<char>) -> Option<Seq<char>> {
    let k = last_index_of(p, '.');
    if k <= 0 {
        None
    } else {
        Some(p.subrange(k + 1, p.len() as int))
    }
}

/// The view of an optional string.
pub open spec fn option_view(o: Option<String>) -> Option<Seq<char>> {
    match o {
        Some(s) => Some(s@),
        None => None,
    }
}

/// The extension of the path `path`, by `std::path::Path::extension`, as a
/// string. Claimed of it: for a path that every platform splits at slashes
/// only, it is the extension of the file name, which is the last component
/// of the path (empty components and `.` skipped; none when that is `..`),
/// and that extension is what follows the last `.` of the name, unless there
/// is none or the only one starts the name. In any case an extension holds
/// no `.`. For other paths (with `\`, `:` or a leading `//`) it is not stated
/// which part of the path the extension is taken from: that depends on the
/// prefixes and separators of the platform.
#[verifier::external_body]
fn path_extension(path: &str) -> (r: Option<String>)
    ensures
        splits_at_slashes_only(path@) ==> option_view(r) == path_extension_of(path@),
        r matches Some(e) ==> !e@.contains('.'),
{
    match std::path::Path::new(path).extension() {
        Some(e) => Some(e.to_string_lossy().into_owned()),
        None => None,
    }
}

/// The message for a token list file that cannot be found.
pub open spec fn missing_file_message() -> Seq<char> {
    "This file does not exist or could not be opened"@
}

/// What checking a token list file gives: its path when it exists and has the
/// extension `lst`, otherwise the message that says why not.
pub open spec fn list_file_check(path: Seq<char>, exists: bool, extension: Option<Seq<char>>) -> Result<
    Seq<char>,
    Seq<char>,
> {
    if !exists {
        Err(missing_file_message())
    } else if extension == Some("lst"@) {
        Ok(path)
    } else {
        Err("You attached a ."@ + match extension {
            Some(e) => e,
            None => "<no extension>"@,
        } + " file, not a .lst file"@)
    }
}

/// Decides on a token list file at `path`, given whether it exists and its
/// extension.
pub fn check_list_file(path: &str, exists: bool, extension: Option<String>) -> (r: Result<
    String,
    String,
>)
    ensures
        result_view(r) == list_file_check(path@, exists, option_view(extension)),
        !exists ==> result_view(r) == Err::<Seq<char>, Seq<char>>(missing_file_message()),
        exists ==> (r is Ok <==> option_view(extension) == Some("lst"@)),
        r matches Ok(p) ==> p@ == path@,
{
    if !exists {
        return Err(String::from_str("This file does not exist or could not be opened"));
    }
    let lst = String::from_str("lst");
    let is_list = match &extension {
        Some(e) => *e == lst,
        None => false,
    };
    if is_list {
        Ok(String::from_str(path))
    } else {
        let mut m = String::from_str("You attached a .");
        match &extension {
            Some(e) => m.append(e.as_str()),
            None => m.append("<no extension>"),
        }
        m.append(" file, not a .lst file");
        Err(m)
    }
}

/// Checks the token list file named by `s`, given whether it exists: it must
/// have the extension `lst`.
pub fn allowed_files(s: &str, exists: bool) -> (r: Result<String, String>)
    ensures
        !exists ==> result_view(r) == Err::<Seq<char>, Seq<char>>(missing_file_message()),
        splits_at_slashes_only(s@) ==> result_view(r) == list_file_check(
            s@,
            exists,
            path_extension_of(s@),
        ),
        r matches Ok(p) ==> p@ == s@ && exists,
        exists ==> exists|e: Option<Seq<char>>|
            (e matches Some(x) ==> !x.contains('.')) && result_view(r) == list_file_check(
                s@,
                exists,
                e,
            ),
{
    let extension = path_extension(s);
    let r = check_list_file(s, exists, extension);
    assert(option_view(extension) matches Some(x) ==> !x.contains('.'));
    r
}

/// What checking a run duration gives, for text `s` that ends in its unit
/// and whose number part does or does not read as a number: `s` itself when
/// the number is valid and the unit is `m` (minutes) or `h` (hours),
/// otherwise the message that says why not.
pub open spec fn duration_check(s: Seq<char>, number_is_valid: bool) -> Result<Seq<char>, Seq<char>> {
    if !number_is_valid {
        Err("'"@ + s + "' isn't a valid float"@)
    } else if s.last() == 'm' || s.last() == 'h' {
        Ok(s)
    } else {
        Err("'"@ + seq![s.last()] + "' is an invalid suffix, only 'm' or 'h' are permitted"@)
    }
}

/// Whether a run duration can be split into its number and its unit: it is
/// not empty and its last character, the unit, is ASCII.
pub open spec fn splittable_duration(s: Seq<char>) -> bool {
    s.len() > 0 && (s.last() as u32) < 0x80
}

/// Splits a run duration such as `15m` into its number part and its unit.
pub fn split_duration(s: &str) -> (r: (&str, char))
    requires
        splittable_duration(s@),
    ensures
        r.0@ == s@.drop_last(),
        r.1 == s@.last(),
{
    let n = s.unicode_len();
    let unit = s.get_char(n - 1);
    (s.substring_char(0, n - 1), unit)
}

/// Checks a total run duration such as `15m` or `24h`, given whether its
/// number part reads as a number.
pub fn allowed_times(s: &str, number_is_valid: bool) -> (r: Result<String, String>)
    requires
        splittable_duration(s@),
    ensures
        result_view(r) == duration_check(s@, number_is_valid),
        number_is_valid ==> (r is Ok <==> (s@.last() == 'm' || s@.last() == 'h')),
        !number_is_valid ==> r is Err,
        r matches Ok(t) ==> t@ == s@,
{
    if !number_is_valid {
        let mut m = String::from_str("'");
        m.append(s);
        m.append("' isn't a valid float");
        return Err(m);
    }
    let cs = chars_of(s);
    let n = cs.len();
    let unit = cs[n - 1];
    if unit == 'm' || unit == 'h' {
        Ok(String::from_str(s))
    } else {
        let mut m = String::from_str("'");
        let last = string_of_piece(cs.as_slice(), n - 1, n);
        assert(last@ =~= seq![s@.last()]);
        m.append(last.as_str());
        m.append("' is an invalid suffix, only 'm' or 'h' are permitted");
        Err(m)
    }
}


/// An existing token list file is accepted exactly when its extension is
/// `lst`, and then as the same path; any other extension, or none, gives the
/// message that names it; a file that does not exist is refused as missing,
/// whatever its extension.
pub proof fn list_file_accepted_exactly_with_lst(path: Seq<char>, extension: Option<Seq<char>>)
    ensures
        list_file_check(path, true, extension) is Ok <==> extension == Some("lst"@),
        list_file_check(path, true, extension) matches Ok(p) ==> p == path,
        extension matches Some(x) ==> (x != "lst"@ ==> list_file_check(path, true, extension)
            == Err::<Seq<char>, Seq<char>>("You attached a ."@ + x + " file, not a .lst file"@)),
        list_file_check(path, false, extension) == Err::<Seq<char>, Seq<char>>(
            missing_file_message(),
        ),
{
}

/// A run duration whose number is valid is accepted exactly when its unit,
/// the last character, is `m` or `h`, whatever the length of the text, and
/// then as the same text; two durations with the same unit are accepted
/// alike; an invalid number is refused whatever the unit.
pub proof fn duration_accepted_exactly_with_unit(s: Seq<char>, t: Seq<char>, number_is_valid: bool)
    requires
        s.len() > 0,
        t.len() > 0,
    ensures
        duration_check(s, true) is Ok <==> (s.last() == 'm' || s.last() == 'h'),
        duration_check(s, number_is_valid) matches Ok(d) ==> d == s,
        s.last() == t.last() ==> (duration_check(s, true) is Ok <==> duration_check(t, true) is Ok),
        !number_is_valid ==> duration_check(s, number_is_valid) is Err,
{
}

/// A worker count that is accepted never exceeds the machine's cores, and is
/// the number that the text reads as.
pub proof fn accepted_worker_count_fits(s: Seq<char>, cores: usize)
    ensures
        worker_count_check(s, cores) matches Ok(n) ==> n <= cores && parsed_usize(s) == Some(n),
{
}

proof fn lemma_digit_char(d: nat)
    requires
        d < 10,
    ensures
        crate::text::is_digit(digit_char(d)),
        crate::text::digit_value(digit_char(d)) == d,
        digit_char(d) != '+',
{
}

proof fn lemma_decimal_text_reads_back(n: nat)
    ensures
        decimal_text(n).len() > 0,
        all_digits(decimal_text(n)),
        decimal_value(decimal_text(n)) == n,
        decimal_text(n)[0] != '+',
    decreases n,
{
    if n < 10 {
        lemma_digit_char(n);
        let t = decimal_text(n);
        assert(t.drop_last() =~= Seq::<char>::empty());
        assert(t.last() == digit_char(n));
        assert(decimal_value(t.drop_last()) == 0);
        assert(decimal_value(t) == decimal_value(t.drop_last()) * 10 + crate::text::digit_value(t.last()));
    } else {
        lemma_digit_char(n % 10);
        lemma_decimal_text_reads_back(n / 10);
        let t = decimal_text(n);
        assert(t.drop_last() =~= decimal_text(n / 10));
        assert(t[0] == decimal_text(n / 10)[0]);
        assert(t.last() == digit_char(n % 10));
        assert(decimal_value(t) == decimal_value(t.drop_last()) * 10 + crate::text::digit_value(t.last()));
        assert(decimal_value(t) == (n / 10) * 10 + n % 10);
        assert forall|i: int| 0 <= i < t.len() implies crate::text::is_digit(#[trigger] t[i]) by {
            if i < t.len() - 1 {
                assert(t[i] == decimal_text(n / 10)[i]);
            }
        }
    }
}

/// Any worker count within the machine's cores, written in base ten, is
/// accepted as that count.
pub proof fn written_worker_count_is_accepted(n: usize, cores: usize)
    requires
        n <= cores,
    ensures
        worker_count_check(decimal_text(n as nat), cores) == Ok::<usize, Seq<char>>(n),
{
    lemma_decimal_text_reads_back(n as nat);
}

} // verus!
