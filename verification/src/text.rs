//! Strings: what the standard library says of them, and what the rest of the library asks.

use vstd::prelude::*;
use vstd::string::*;
use vstd::utf8::*;

verus! {

/// The error of a failed UTF-8 check, which nothing here looks into.
#[verifier::external_type_specification]
#[verifier::external_body]
pub struct ExUtf8Error(core::str::Utf8Error);

/// `str`'s `==`: two strings are equal when they hold the same characters.
pub assume_specification[ <str as PartialEq>::eq ](s: &str, other: &str) -> (res: bool)
    ensures
        res == (s@ == other@),
;

/// `str::eq_ignore_ascii_case`: the two strings are equal once their ASCII capitals have been
/// put in lower case.
pub assume_specification[ str::eq_ignore_ascii_case ](s: &str, other: &str) -> (res: bool)
    ensures
        res == (ascii_lower(s@) == ascii_lower(other@)),
;

/// `core::str::from_utf8`: succeeds exactly on valid UTF-8, with the characters that the bytes
/// encode.
pub assume_specification[ core::str::from_utf8 ](v: &[u8]) -> (res: Result<
    &str,
    core::str::Utf8Error,
>)
    ensures
        match res {
            Ok(s) => valid_utf8(v@) && s@ == decode_utf8(v@),
            Err(_) => !valid_utf8(v@),
        },
;

/// The ASCII lower case of one character; a character that is no ASCII capital stays as it is.
pub open spec fn ascii_lower_char(c: char) -> char {
    if 'A' <= c <= 'Z' {
        (c as u32 + 32) as char
    } else {
        c
    }
}

/// The ASCII lower case of a string.
pub open spec fn ascii_lower(s: Seq<char>) -> Seq<char> {
    s.map_values(|c: char| ascii_lower_char(c))
}

/// The two sides of the first colon of a text, if it has one.
pub open spec fn split_at_colon(text: Seq<char>) -> Option<(Seq<char>, Seq<char>)> {
    match text.index_of_first(':') {
        Some(i) => Some((text.take(i), text.skip(i + 1))),
        None => None,
    }
}

/// Where a text is `left`, a colon and `right`, and `left` has no colon, the first colon is the
/// one between them.
pub proof fn lemma_split_at_colon(left: Seq<char>, right: Seq<char>)
    requires
        !left.contains(':'),
    ensures
        split_at_colon(left + seq![':'] + right) == Some((left, right)),
{
    let text = left + seq![':'] + right;
    text.index_of_first_ensures(':');
    assert(text[left.len() as int] == ':');
    let i = text.index_of_first(':')->0;
    if i < left.len() {
        assert(left[i] == ':');
    }
    assert(i == left.len());
    assert(text.take(i) =~= left);
    assert(text.skip(i + 1) =~= right);
}

/// The UTF-8 of two texts in a row is the UTF-8 of each in a row.
pub proof fn lemma_encode_utf8_concat(left: Seq<char>, right: Seq<char>)
    ensures
        encode_utf8(left + right) == encode_utf8(left) + encode_utf8(right),
    decreases left.len(),
{
    if left.len() == 0 {
        assert(left + right =~= right);
        assert(encode_utf8(left) + encode_utf8(right) =~= encode_utf8(right));
    } else {
        lemma_encode_utf8_concat(left.drop_first(), right);
        assert((left + right).drop_first() =~= left.drop_first() + right);
        assert(encode_utf8(left + right) =~= encode_utf8(left) + encode_utf8(right));
    }
}

/// The decimal digits of a number.
pub open spec fn decimal(n: nat) -> Seq<char>
    decreases n,
{
    let last = seq![(('0' as u32) + n % 10) as char];
    if n < 10 {
        last
    } else {
        decimal(n / 10) + last
    }
}

/// The decimal text of a number reads back as the number: it is made of digits, the first of which
/// is not 0 unless the number is, and a reader that takes them from left to right, each worth a tenth
/// of the one before it, comes to the number again.
pub proof fn law_decimal_reads_back(n: nat)
    ensures
        decimal(n).len() > 0,
        forall|i: int| 0 <= i < decimal(n).len() ==> '0' <= #[trigger] decimal(n)[i] <= '9',
        n > 0 ==> decimal(n)[0] != '0',
        n == 0 ==> decimal(n) == seq!['0'],
        decimal(n).fold_left(
            0int,
            |value: int, digit: char| value * 10 + (digit as int - '0' as int),
        ) == n,
    decreases n,
{
    let read = |value: int, digit: char| value * 10 + (digit as int - '0' as int);
    let text = decimal(n);
    if n < 10 {
        assert(text.drop_last() =~= seq![]);
        assert(text.drop_last().fold_left(0int, read) == 0);
    } else {
        law_decimal_reads_back(n / 10);
        assert(text.drop_last() =~= decimal(n / 10));
        assert(text[0] == decimal(n / 10)[0]);
    }
    assert(text.last() as int - '0' as int == n % 10);
    assert(text.fold_left(0int, read) == read(text.drop_last().fold_left(0int, read), text.last()));
}

/// Two numbers have the same decimal text only if they are the same.
pub proof fn law_decimals_differ(left: nat, right: nat)
    ensures
        decimal(left) == decimal(right) <==> left == right,
{
    law_decimal_reads_back(left);
    law_decimal_reads_back(right);
}

/// A text is split at its first colon and nowhere else: the two sides and the colon make up the text,
/// and there is no colon on the left. A text is not split only if it has no colon.
pub proof fn law_text_is_split_at_its_first_colon(
    text: Seq<char>,
    left: Seq<char>,
    right: Seq<char>,
)
    ensures
        split_at_colon(text) == Some((left, right)) <==> (text == left + seq![':'] + right
            && !left.contains(':')),
        split_at_colon(text) is None <==> !text.contains(':'),
{
    text.index_of_first_ensures(':');
    if text == left + seq![':'] + right && !left.contains(':') {
        lemma_split_at_colon(left, right);
    }
    if let Some((l, r)) = split_at_colon(text) {
        let i = text.index_of_first(':')->0;
        assert(text =~= l + seq![':'] + r);
        if l.contains(':') {
            let j = choose|j: int| 0 <= j < l.len() && l[j] == ':';
            assert(text[j] == ':');
        }
        assert(text[i] == ':');
    }
}

/// Lower case keeps every character in its place, moves the ASCII capitals to the small letters, and
/// leaves every other character as it is.
pub proof fn law_only_capitals_are_lowered(s: Seq<char>, i: int)
    requires
        0 <= i < s.len(),
    ensures
        ascii_lower(s).len() == s.len(),
        'A' <= s[i] <= 'Z' ==> ascii_lower(s)[i] as int - 'a' as int == s[i] as int - 'A' as int,
        !('A' <= s[i] <= 'Z') ==> ascii_lower(s)[i] == s[i],
{
}

/// Writes a number in decimal digits.
pub fn decimal_text(n: u16) -> (r: String)
    ensures
        r@ == decimal(n as nat),
        r@.fold_left(
            0int,
            |value: int, digit: char| value * 10 + (digit as int - '0' as int),
        ) == n,
    decreases n,
{
    let mut text: String = if n < 10 {
        String::new()
    } else {
        decimal_text(n / 10)
    };
    let digit: usize = (n % 10) as usize;
    let digits = "0123456789";
    proof {
        reveal_strlit("0123456789");
    }
    let last = digits.substring_ascii(digit, digit + 1);
    assert(last@ =~= seq![(('0' as u32) + n % 10) as char]);
    text.append(last);
    assert(text@ =~= decimal(n as nat));
    proof {
        law_decimal_reads_back(n as nat);
    }
    text
}

/// Splits a text at its first colon.
pub fn split_once_colon(text: &str) -> (r: Option<(String, String)>)
    ensures
        match r {
            Some((left, right)) => split_at_colon(text@) == Some((left@, right@)),
            None => split_at_colon(text@) is None,
        },
        match r {
            Some((left, right)) => text@ == left@ + seq![':'] + right@ && !left@.contains(':'),
            None => !text@.contains(':'),
        },
{
    let len: usize = text.unicode_len();
    let mut n: usize = 0;
    proof {
        text@.index_of_first_ensures(':');
    }
    for c in it: text.chars()
        invariant
            n == it.index(),
            len == text@.len(),
            it.seq() == text@,
            forall|i: int| 0 <= i < n ==> text@[i] != ':',
    {
        if c == ':' {
            proof {
                text@.index_of_first_ensures(':');
                assert(text@[n as int] == ':');
            }
            let left = text.substring_char(0, n);
            let right = text.substring_char(n + 1, len);
            assert(left@ =~= text@.take(n as int));
            assert(right@ =~= text@.skip(n + 1));
            assert(text@ =~= left@ + seq![':'] + right@);
            return Some((left.to_owned(), right.to_owned()));
        }
        n = n + 1;
    }
    None
}

/// The text that is written for a number reads back as that number, and is made of digits.
pub proof fn law_written_number_reads_back(n: u16, r: String)
    requires
        call_ensures(decimal_text, (n,), r),
    ensures
        r@.len() > 0,
        forall|i: int| 0 <= i < r@.len() ==> '0' <= #[trigger] r@[i] <= '9',
        n > 0 ==> r@[0] != '0',
        r@.fold_left(0int, |value: int, digit: char| value * 10 + (digit as int - '0' as int)) == n,
{
    law_decimal_reads_back(n as nat);
}

/// A text that is split is made up again by its two sides and a colon, the first one; one that is not
/// split has none.
pub proof fn law_split_text_is_made_up_again(text: &str, r: Option<(String, String)>)
    requires
        call_ensures(split_once_colon, (text,), r),
    ensures
        r is Some <==> text@.contains(':'),
        r matches Some(sides) ==> text@ == sides.0@ + seq![':'] + sides.1@ && !sides.0@.contains(
            ':',
        ),
{
    if let Some(sides) = r {
        assert(text@[sides.0@.len() as int] == ':');
    }
}

} // verus!
