use vstd::prelude::*;

use crate::text::{chars_of, string_of_piece, trim_bounds, trimmed};

verus! {

/// The error that the Base58 decoder reports.
#[verifier::external_type_specification]
#[verifier::external_body]
pub struct ExBase58DecodeError(bs58::decode::Error);

/// The value of `c` as a digit of the Bitcoin Base58 alphabet
/// `123456789ABCDEFGHJKLMNPQRSTUVWXYZabcdefghijkmnopqrstuvwxyz`,
/// or `None` when `c` is not in it.
pub open spec fn base58_digit(c: char) -> Option<nat> {
    if '1' <= c <= '9' {
        Some((c as u32 - '1' as u32) as nat)
    } else if 'A' <= c <= 'H' {
        Some((c as u32 - 'A' as u32 + 9) as nat)
    } else if 'J' <= c <= 'N' {
        Some((c as u32 - 'J' as u32 + 17) as nat)
    } else if 'P' <= c <= 'Z' {
        Some((c as u32 - 'P' as u32 + 22) as nat)
    } else if 'a' <= c <= 'k' {
        Some((c as u32 - 'a' as u32 + 33) as nat)
    } else if 'm' <= c <= 'z' {
        Some((c as u32 - 'm' as u32 + 44) as nat)
    } else {
        None
    }
}

/// Whether every character of `s` is a Base58 digit.
pub open spec fn is_base58(s: Seq<char>) -> bool {
    forall|i: int| 0 <= i < s.len() ==> #[trigger] base58_digit(s[i]) is Some
}

/// The number that the Base58 digits `s` spell, most significant first.
pub open spec fn base58_number(s: Seq<char>) -> nat
    decreases s.len(),
{
    if s.len() == 0 {
        0
    } else {
        let d = match base58_digit(s.last()) {
            Some(d) => d,
            None => 0,
        };
        base58_number(s.drop_last()) * 58 + d
    }
}

/// How many `1` digits (the digit zero) `s` starts with.
pub open spec fn leading_ones(s: Seq<char>) -> nat
    decreases s.len(),
{
    if s.len() > 0 && s[0] == '1' {
        1 + leading_ones(s.drop_first())
    } else {
        0
    }
}

/// The bytes of `n`, most significant first, without leading zero bytes
/// (zero has no bytes).
pub open spec fn big_endian_bytes(n: nat) -> Seq<u8>
    decreases n,
{
    if n == 0 {
        seq![]
    } else {
        big_endian_bytes(n / 256).push((n % 256) as u8)
    }
}

/// The bytes that Base58 text `s` stands for: one zero byte for each leading
/// `1`, then the bytes of the number that all its digits spell. `None` when a
/// character of `s` is not a Base58 digit.
pub open spec fn base58_decoding(s: Seq<char>) -> Option<Seq<u8>> {
    if is_base58(s) {
        Some(Seq::new(leading_ones(s), |i: int| 0u8) + big_endian_bytes(base58_number(s)))
    } else {
        None
    }
}

/// Decodes Base58 text with the Bitcoin alphabet by `bs58::decode(..).into_vec()`.
/// Claimed of it: it succeeds exactly when every character is in the
/// alphabet (any other character, a non-ASCII one among them, is an error),
/// and then it gives one zero byte per leading `1` followed by the
/// big-endian bytes, without leading zeros, of the number that the digits
/// spell. The output buffer that `into_vec` sizes from the input length is
/// always large enough for that.
#[verifier::external_body]
fn decode_base58(s: &str) -> (r: Result<Vec<u8>, bs58::decode::Error>)
    ensures
        r is Ok <==> base58_decoding(s@) is Some,
        r matches Ok(v) ==> v@ == base58_decoding(s@)->0,
{
    bs58::decode(s).into_vec()
}

/// The length in bytes of a Solana address.
pub const ADDRESS_LEN: usize = 32;

/// The message for text that is not Base58.
pub open spec fn not_base58_message(s: Seq<char>) -> Seq<char> {
    "I couldn't convert the string ("@ + s + ") into Base58."@
}

/// The message for Base58 text that does not decode to an address.
pub open spec fn unrecognized_message(s: Seq<char>) -> Seq<char> {
    "I could not recognize the address "@ + s + "."@
}

/// What checking `s` as an address gives: `s` itself when it is Base58 text
/// of exactly 32 bytes, otherwise the message that says why not.
pub open spec fn address_check(s: Seq<char>) -> Result<Seq<char>, Seq<char>> {
    match base58_decoding(s) {
        None => Err(not_base58_message(s)),
        Some(bytes) => if bytes.len() == ADDRESS_LEN {
            Ok(s)
        } else {
            Err(unrecognized_message(s))
        },
    }
}

/// The views of the strings in a `Result`.
pub open spec fn result_view(r: Result<String, String>) -> Result<Seq<char>, Seq<char>> {
    match r {
        Ok(s) => Ok(s@),
        Err(e) => Err(e@),
    }
}

/// Checks that `s` is a Solana address: Base58 text that decodes to 32 bytes.
/// Gives `s` back when it is, and a message when it is not.
pub fn count_bytes(s: String) -> (r: Result<String, String>)
    ensures
        result_view(r) == address_check(s@),
        r is Ok <==> (base58_decoding(s@) is Some && base58_decoding(s@)->0.len() == 32),
        r matches Ok(a) ==> a@ == s@,
{
    match decode_base58(s.as_str()) {
        Err(_) => {
            let mut m = String::from_str("I couldn't convert the string (");
            m.append(s.as_str());
            m.append(") into Base58.");
            Err(m)
        },
        Ok(decoded) => {
            if decoded.len() == ADDRESS_LEN {
                Ok(s)
            } else {
                let mut m = String::from_str("I could not recognize the address ");
                m.append(s.as_str());
                m.append(".");
                Err(m)
            }
        },
    }
}


/// The pieces of `s` between line feeds: one more piece than `s` has line
/// feeds.
pub open spec fn split_at_newlines(s: Seq<char>) -> Seq<Seq<char>>
    decreases s.len(),
{
    if s.len() == 0 {
        seq![Seq::empty()]
    } else {
        let prev = split_at_newlines(s.drop_last());
        if s.last() == '\n' {
            prev.push(Seq::empty())
        } else {
            prev.update(prev.len() - 1, prev.last().push(s.last()))
        }
    }
}

/// The lines of `s`, as `str::lines` gives them up to a carriage return at
/// their end: the pieces between line feeds, where a line feed at the very
/// end closes the last line instead of opening an empty one, and empty text
/// has no lines.
pub open spec fn text_lines(s: Seq<char>) -> Seq<Seq<char>> {
    if s.len() == 0 {
        Seq::empty()
    } else if s.last() == '\n' {
        split_at_newlines(s.drop_last())
    } else {
        split_at_newlines(s)
    }
}

/// The addresses among `lines`, each trimmed, in order.
pub open spec fn accepted_addresses(lines: Seq<Seq<char>>) -> Seq<Seq<char>>
    decreases lines.len(),
{
    if lines.len() == 0 {
        Seq::empty()
    } else {
        let prev = accepted_addresses(lines.drop_last());
        match address_check(trimmed(lines.last())) {
            Ok(a) => prev.push(a),
            Err(_) => prev,
        }
    }
}

/// The messages for the lines that are not addresses, in order.
pub open spec fn rejected_messages(lines: Seq<Seq<char>>) -> Seq<Seq<char>>
    decreases lines.len(),
{
    if lines.len() == 0 {
        Seq::empty()
    } else {
        let prev = rejected_messages(lines.drop_last());
        match address_check(trimmed(lines.last())) {
            Ok(_) => prev,
            Err(m) => prev.push(m),
        }
    }
}

/// The views of a list of strings.
pub open spec fn strings_view(v: Seq<String>) -> Seq<Seq<char>> {
    v.map_values(|s: String| s@)
}

/// The outcome of reading a list of addresses, one per line: the addresses
/// to trade, and a message for each line that is not one.
pub struct AddressList {
    pub addresses: Vec<String>,
    pub warnings: Vec<String>,
}

proof fn lemma_split_nonempty(s: Seq<char>)
    ensures
        split_at_newlines(s).len() >= 1,
    decreases s.len(),
{
    if s.len() > 0 {
        lemma_split_nonempty(s.drop_last());
    }
}

/// Checks one line and records the outcome.
fn record_line(cs: &[char], from: usize, to: usize, list: &mut AddressList, Ghost(done): Ghost<Seq<Seq<char>>>)
    requires
        from <= to <= cs@.len(),
        strings_view(old(list).addresses@) == accepted_addresses(done),
        strings_view(old(list).warnings@) == rejected_messages(done),
    ensures
        strings_view(final(list).addresses@) == accepted_addresses(done.push(cs@.subrange(from as int, to as int))),
        strings_view(final(list).warnings@) == rejected_messages(done.push(cs@.subrange(from as int, to as int))),
{
    let ghost line = cs@.subrange(from as int, to as int);
    let piece = vstd::slice::slice_subrange(cs, from, to);
    let (i, j) = trim_bounds(piece);
    let candidate = string_of_piece(piece, i, j);
    assert(done.push(line).drop_last() =~= done);
    let checked = count_bytes(candidate);
    match checked {
        Ok(a) => {
            list.addresses.push(a);
            assert(strings_view(list.addresses@) =~= strings_view(old(list).addresses@).push(a@));
            assert(strings_view(list.warnings@) =~= strings_view(old(list).warnings@));
        },
        Err(m) => {
            list.warnings.push(m);
            assert(strings_view(list.warnings@) =~= strings_view(old(list).warnings@).push(m@));
            assert(strings_view(list.addresses@) =~= strings_view(old(list).addresses@));
        },
    }
}

/// Reads a list of addresses, one per line. Each line is trimmed of white
/// space and NUL characters and checked by `count_bytes`; the addresses are
/// kept in order, and each line that is not one gives a warning message.
pub fn read_address_list(content: &str) -> (r: AddressList)
    ensures
        strings_view(r.addresses@) == accepted_addresses(text_lines(content@)),
        strings_view(r.warnings@) == rejected_messages(text_lines(content@)),
{
    let cs = chars_of(content);
    let n = cs.len();
    let mut list = AddressList { addresses: Vec::new(), warnings: Vec::new() };
    let ghost mut done: Seq<Seq<char>> = Seq::empty();
    let mut start: usize = 0;
    let mut k: usize = 0;
    assert(strings_view(list.addresses@) =~= accepted_addresses(done));
    assert(strings_view(list.warnings@) =~= rejected_messages(done));
    assert(cs@.take(0) =~= Seq::<char>::empty());
    assert(cs@.subrange(0, 0) =~= Seq::<char>::empty());
    while k < n
        invariant
            start <= k <= n == cs@.len(),
            cs@ == content@,
            split_at_newlines(cs@.take(k as int)) == done.push(cs@.subrange(start as int, k as int)),
            start > 0 ==> cs@[start - 1] == '\n',
            strings_view(list.addresses@) == accepted_addresses(done),
            strings_view(list.warnings@) == rejected_messages(done),
        decreases n - k,
    {
        let ghost prefix = cs@.take(k + 1);
        assert(prefix.drop_last() =~= cs@.take(k as int));
        if cs[k] == '\n' {
            record_line(cs.as_slice(), start, k, &mut list, Ghost(done));
            proof {
                done = done.push(cs@.subrange(start as int, k as int));
            }
            start = k + 1;
            k = k + 1;
            assert(cs@.subrange(start as int, k as int) =~= Seq::<char>::empty());
        } else {
            proof {
                lemma_split_nonempty(cs@.take(k as int));
                assert(cs@.subrange(start as int, k + 1) =~= cs@.subrange(start as int, k as int).push(cs@[k as int]));
            }
            k = k + 1;
            assert(split_at_newlines(prefix) =~= done.push(cs@.subrange(start as int, k as int)));
        }
    }
    assert(cs@.take(n as int) =~= cs@);
    if start < n {
        record_line(cs.as_slice(), start, n, &mut list, Ghost(done));
        proof {
            assert(cs@.last() != '\n');
        }
    } else {
        proof {
            if n > 0 {
                assert(cs@.last() == '\n');
                assert(cs@.drop_last() =~= cs@.take(n - 1));
                assert(split_at_newlines(cs@) == split_at_newlines(cs@.drop_last()).push(Seq::empty()));
                assert(done.push(Seq::empty()) == split_at_newlines(cs@.drop_last()).push(Seq::empty()));
                let e = Seq::<char>::empty();
                assert(done.push(e).drop_last() =~= done);
                assert(split_at_newlines(cs@.drop_last()).push(e).drop_last() =~= split_at_newlines(
                    cs@.drop_last(),
                ));
            } else {
                assert(done.push(Seq::empty()) =~= seq![Seq::<char>::empty()]);
                assert(done =~= Seq::<Seq<char>>::empty());
            }
        }
    }
    list
}


/// The address check accepts exactly the Base58 text that decodes to 32
/// bytes, and gives that text back unchanged; text that decodes to any other
/// number of bytes, 31 or 33 among them, is refused as unrecognized, and text
/// that is not Base58 is refused as such.
pub proof fn address_check_accepts_exactly_32_bytes(s: Seq<char>)
    ensures
        address_check(s) is Ok <==> (base58_decoding(s) is Some && base58_decoding(s)->0.len()
            == 32),
        address_check(s) matches Ok(a) ==> a == s,
        base58_decoding(s) is Some && base58_decoding(s)->0.len() != 32 ==> address_check(s)
            == Err::<Seq<char>, Seq<char>>(unrecognized_message(s)),
        base58_decoding(s) is None ==> address_check(s) == Err::<Seq<char>, Seq<char>>(
            not_base58_message(s),
        ),
{
}

/// The placeholder `None` is no address: it decodes to three bytes.
pub proof fn placeholder_is_no_address()
    ensures
        address_check("None"@) is Err,
{
    reveal_strlit("None");
    let s = "None"@;
    assert(s.len() == 4);
    assert(is_base58(s)) by {
        assert forall|i: int| 0 <= i < s.len() implies #[trigger] base58_digit(s[i]) is Some by {
            assert(s[0] == 'N' && s[1] == 'o' && s[2] == 'n' && s[3] == 'e');
        }
    }
    assert(s[0] == 'N' && s[1] == 'o' && s[2] == 'n' && s[3] == 'e');
    let s1 = s.drop_last();
    let s2 = s1.drop_last();
    let s3 = s2.drop_last();
    let s4 = s3.drop_last();
    assert(s4.len() == 0);
    assert(base58_number(s4) == 0);
    assert(s3.drop_last() == s4);
    assert(base58_digit('N') == Some(21nat));
    assert(base58_digit('o') == Some(46nat));
    assert(base58_digit('n') == Some(45nat));
    assert(base58_digit('e') == Some(37nat));
    assert(base58_number(s3) == 21) by {
        assert(s3.last() == 'N');
    }
    assert(base58_number(s2) == 21 * 58 + 46) by {
        assert(s2.last() == 'o');
    }
    assert(base58_number(s1) == (21 * 58 + 46) * 58 + 45) by {
        assert(s1.last() == 'n');
    }
    assert(base58_number(s) == ((21 * 58 + 46) * 58 + 45) * 58 + 37) by {
        assert(s.last() == 'e');
    }
    let n: nat = 4254743;
    assert(base58_number(s) == n);
    assert(leading_ones(s) == 0);
    assert(big_endian_bytes(n / 256 / 256 / 256) =~= Seq::<u8>::empty());
    assert(big_endian_bytes(n / 256 / 256).len() == 1);
    assert(big_endian_bytes(n / 256).len() == 2);
    assert(big_endian_bytes(n).len() == 3);
    assert(base58_decoding(s)->0.len() == 3);
}

/// Reading a list sorts every line into exactly one of the two outcomes: it
/// is either kept as an address or reported with a warning.
pub proof fn every_line_has_one_outcome(lines: Seq<Seq<char>>)
    ensures
        accepted_addresses(lines).len() + rejected_messages(lines).len() == lines.len(),
    decreases lines.len(),
{
    if lines.len() > 0 {
        every_line_has_one_outcome(lines.drop_last());
    }
}

/// Every address kept from a list passes the address check as it stands:
/// Base58 text of 32 bytes.
pub proof fn kept_lines_are_addresses(lines: Seq<Seq<char>>)
    ensures
        forall|i: int|
            0 <= i < accepted_addresses(lines).len() ==> address_check(
                #[trigger] accepted_addresses(lines)[i],
            ) == Ok::<Seq<char>, Seq<char>>(accepted_addresses(lines)[i]),
    decreases lines.len(),
{
    if lines.len() > 0 {
        kept_lines_are_addresses(lines.drop_last());
    }
}

} // verus!
