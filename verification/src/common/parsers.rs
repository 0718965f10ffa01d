//! Byte-level parsers for the pieces every described language shares.
use vstd::prelude::*;
use nom::AsChar;

verus! {

/// The outcome of a parser: what is left of the input and the text read,
/// an error with its code, or the number of bytes that are needed at least.
#[derive(Debug)]
pub enum ParseResult<'a> {
    Done(&'a [u8], &'a str),
    Error(u32),
    Incomplete(usize),
}

/// An ASCII letter.
pub open spec fn alpha(b: u8) -> bool {
    (0x41 <= b <= 0x5A) || (0x61 <= b <= 0x7A)
}

/// An ASCII letter or decimal digit.
pub open spec fn alphanum(b: u8) -> bool {
    alpha(b) || (0x30 <= b <= 0x39)
}

/// `nom::AsChar::is_alpha` on a byte: the source tests for the 52 ASCII
/// letters.
#[verifier::external_body]
fn is_alpha(b: u8) -> (r: bool)
    ensures
        r == alpha(b),
{
    b.is_alpha()
}

/// `nom::AsChar::is_alphanum` on a byte: an ASCII letter or a decimal
/// digit, as the source tests.
#[verifier::external_body]
fn is_alphanum(b: u8) -> (r: bool)
    ensures
        r == alphanum(b),
{
    b.is_alphanum()
}

/// The characters of ASCII bytes.
pub open spec fn ascii_chars(b: Seq<u8>) -> Seq<char> {
    b.map_values(|x: u8| x as char)
}

/// `std::str::from_utf8` on bytes that are all ASCII: such bytes are valid
/// UTF-8, and each stands for the character with its code.
#[verifier::external_body]
fn ascii_str(b: &[u8]) -> (r: &str)
    requires
        forall|i: int| 0 <= i < b@.len() ==> b@[i] < 0x80,
    ensures
        r@ == ascii_chars(b@),
{
    std::str::from_utf8(b).unwrap()
}

/// How many bytes at the start of `b` can continue an identifier.
pub open spec fn ident_len(b: Seq<u8>) -> int
    decreases b.len(),
{
    if b.len() == 0 || !(alphanum(b[0]) || b[0] == 0x5F) {
        0
    } else {
        1 + ident_len(b.drop_first())
    }
}

/// A byte that may stand in a run of special characters: the printable
/// ASCII symbols but for quotes and the closing parenthesis.
pub open spec fn special(b: u8) -> bool {
    b == 0x21 || (0x23 <= b <= 0x26) || b == 0x28 || (0x2A <= b <= 0x2F) || (0x3A <= b <= 0x40) || (0x5B <= b
        <= 0x60) || (0x7B <= b <= 0x7E)
}

pub open spec fn special_len(b: Seq<u8>) -> int
    decreases b.len(),
{
    if b.len() == 0 || !special(b[0]) {
        0
    } else {
        1 + special_len(b.drop_first())
    }
}

proof fn lemma_run_len(b: Seq<u8>, i: int, ident: bool)
    requires
        0 <= i <= b.len(),
        forall|k: int| 0 <= k < i ==> if ident {
            alphanum(#[trigger] b[k]) || b[k] == 0x5F
        } else {
            special(b[k])
        },
    ensures
        ident ==> ident_len(b) == i + ident_len(b.skip(i)),
        !ident ==> special_len(b) == i + special_len(b.skip(i)),
    decreases i,
{
    if i > 0 {
        lemma_run_len(b.drop_first(), i - 1, ident);
        assert(b.drop_first().skip(i - 1) =~= b.skip(i));
    } else {
        assert(b.skip(0) =~= b);
    }
}

/// Reads an identifier: a letter or `_`, then letters, digits and `_`.
/// Empty input asks for one byte more; any other first byte is error 42.
pub fn ident(input: &[u8]) -> (r: ParseResult)
    ensures
        input@.len() == 0 ==> r == ParseResult::Incomplete(1),
        input@.len() > 0 && !(alpha(input@[0]) || input@[0] == 0x5F) ==> r == ParseResult::Error(42),
        input@.len() > 0 && (alpha(input@[0]) || input@[0] == 0x5F) ==> {
            let n = 1 + ident_len(input@.drop_first());
            r matches ParseResult::Done(rest, s) && rest@ == input@.skip(n) && s@ == ascii_chars(input@.take(n))
        },
{
    let len = input.len();
    if len == 0 {
        return ParseResult::Incomplete(1);
    }
    let first = input[0];
    if is_alpha(first) || first == 0x5F {
        let ghost tail = input@.drop_first();
        let mut i: usize = 1;
        while i < len && (is_alphanum(input[i]) || input[i] == 0x5F)
            invariant
                len == input@.len(),
                tail == input@.drop_first(),
                1 <= i <= len,
                forall|k: int| 0 <= k < i - 1 ==> alphanum(#[trigger] tail[k]) || tail[k] == 0x5F,
            decreases len - i,
        {
            assert(tail[i - 1] == input@[i as int]);
            i += 1;
        }
        proof {
            lemma_run_len(tail, i - 1, true);
            if i < len {
                assert(tail.skip(i - 1)[0] == input@[i as int]);
            }
            assert forall|k: int| 0 <= k < i implies #[trigger] input@.subrange(0, i as int)[k] < 0x80 by {
                if k > 0 {
                    assert(input@[k] == tail[k - 1]);
                }
            }
            assert(input@.take(i as int) =~= input@.subrange(0, i as int));
            assert(input@.skip(i as int) =~= input@.subrange(i as int, len as int));
        }
        let rest = slice_from(input, i);
        let text = ascii_str(slice_to(input, i));
        ParseResult::Done(rest, text)
    } else {
        ParseResult::Error(42)
    }
}

/// Reads a run of special characters. Empty input asks for one byte more;
/// a run of none is error 41.
pub fn special_chars(input: &[u8]) -> (r: ParseResult)
    ensures
        input@.len() == 0 ==> r == ParseResult::Incomplete(1),
        input@.len() > 0 && special_len(input@) == 0 ==> r == ParseResult::Error(41),
        input@.len() > 0 && special_len(input@) > 0 ==> {
            let n = special_len(input@);
            r matches ParseResult::Done(rest, s) && rest@ == input@.skip(n) && s@ == ascii_chars(input@.take(n))
        },
{
    let len = input.len();
    if len == 0 {
        return ParseResult::Incomplete(1);
    }
    let mut i: usize = 0;
    while i < len && is_special(input[i])
        invariant
            len == input@.len(),
            i <= len,
            forall|k: int| 0 <= k < i ==> special(#[trigger] input@[k]),
        decreases len - i,
    {
        i += 1;
    }
    proof {
        lemma_run_len(input@, i as int, false);
        if i < len {
            assert(input@.skip(i as int)[0] == input@[i as int]);
        }
    }
    if i > 0 {
        proof {
            assert forall|k: int| 0 <= k < i implies #[trigger] input@.subrange(0, i as int)[k] < 0x80 by {
                assert(special(input@[k]));
            }
            assert(input@.take(i as int) =~= input@.subrange(0, i as int));
            assert(input@.skip(i as int) =~= input@.subrange(i as int, len as int));
        }
        let rest = slice_from(input, i);
        let text = ascii_str(slice_to(input, i));
        ParseResult::Done(rest, text)
    } else {
        ParseResult::Error(41)
    }
}

fn is_special(b: u8) -> (r: bool)
    ensures
        r == special(b),
{
    b == 0x21 || (b >= 0x23 && b <= 0x26) || b == 0x28 || (b >= 0x2A && b <= 0x2F) || (b >= 0x3A && b <= 0x40)
        || (b >= 0x5B && b <= 0x60) || (b >= 0x7B && b <= 0x7E)
}

/// What the UTF-8 bytes `b` decode to, or `None` where they are not UTF-8.
pub uninterp spec fn utf8_text(b: Seq<u8>) -> Option<Seq<char>>;

/// `std::str::from_utf8`, its error dropped: the text the bytes decode to,
/// or `None` where they are not valid UTF-8. ASCII bytes decode to the
/// characters with their codes.
#[verifier::external_body]
pub(crate) fn utf8_str(b: &[u8]) -> (r: Option<&str>)
    ensures
        match r {
            Some(t) => utf8_text(b@) == Some(t@),
            None => utf8_text(b@) is None,
        },
        match r {
            Some(t) => (forall|i: int| 0 <= i < b@.len() ==> b@[i] < 0x80) ==> t@ == ascii_chars(b@),
            None => !(forall|i: int| 0 <= i < b@.len() ==> b@[i] < 0x80),
        },
{
    std::str::from_utf8(b).ok()
}

/// A byte that may follow `\` in a string quoted with `q`: the quote, `\`
/// or `n`.
pub open spec fn escapable(c: u8, q: u8) -> bool {
    c == q || c == 0x5C || c == 0x6E
}

/// The length of the text of a string quoted with `q`, read from just after
/// the opening quote up to the closing one: bytes that are neither `\`
/// nor the quote, and `\` followed by an escapable byte. `None` where no
/// closing quote ends such a text.
pub open spec fn quoted_body(b: Seq<u8>, q: u8) -> Option<int>
    decreases b.len(),
{
    if b.len() == 0 {
        None
    } else if b[0] == q {
        Some(0)
    } else if b[0] == 0x5C {
        if b.len() >= 2 && escapable(b[1], q) {
            match quoted_body(b.skip(2), q) {
                Some(n) => Some(n + 2),
                None => None,
            }
        } else {
            None
        }
    } else {
        match quoted_body(b.drop_first(), q) {
            Some(n) => Some(n + 1),
            None => None,
        }
    }
}

/// The length of the text of the quoted string `b` starts with: `"` or `'`,
/// the text, and the same quote again.
pub open spec fn quoted_match(b: Seq<u8>) -> Option<int> {
    if b.len() > 0 && (b[0] == 0x22 || b[0] == 0x27) {
        quoted_body(b.drop_first(), b[0])
    } else {
        None
    }
}

proof fn lemma_quoted_body_bound(b: Seq<u8>, q: u8)
    ensures
        quoted_body(b, q) matches Some(n) ==> 0 <= n < b.len() && b[n] == q,
    decreases b.len(),
{
    if b.len() > 0 && b[0] != q {
        if b[0] == 0x5C {
            if b.len() >= 2 {
                lemma_quoted_body_bound(b.skip(2), q);
            }
        } else {
            lemma_quoted_body_bound(b.drop_first(), q);
        }
    }
}

pub proof fn lemma_quoted_match_bound(b: Seq<u8>)
    ensures
        quoted_match(b) matches Some(n) ==> 0 <= n && n + 2 <= b.len(),
{
    if b.len() > 0 {
        lemma_quoted_body_bound(b.drop_first(), b[0]);
    }
}

/// Reads a string quoted with `"` or `'`, whose text may hold `\` before
/// the quote, `\` or `n`. The text is given as written, escapes kept.
/// Anything else is error 4 (no alternative matched), and a text that is
/// not UTF-8 is error 2 (its conversion failed).
pub fn quoted_str(input: &[u8]) -> (r: ParseResult)
    ensures
        quoted_match(input@) is None ==> r == ParseResult::Error(4),
        quoted_match(input@) matches Some(n) ==> {
            let text = input@.subrange(1, n + 1);
            &&& utf8_text(text) is None ==> r == ParseResult::Error(2)
            &&& utf8_text(text) matches Some(t) ==> r matches ParseResult::Done(rest, s) && rest@ == input@.skip(
                n + 2,
            ) && s@ == t
        },
{
    let len = input.len();
    if len == 0 {
        return ParseResult::Error(4);
    }
    let q = input[0];
    if q != 0x22 && q != 0x27 {
        return ParseResult::Error(4);
    }
    let ghost body = input@.drop_first();
    let mut i: usize = 1;
    loop
        invariant
            len == input@.len(),
            body == input@.drop_first(),
            q == input@[0],
            1 <= i <= len,
            quoted_match(input@) == (match quoted_body(input@.skip(i as int), q) {
                Some(m) => Some(m + i - 1),
                None => None,
            }),
        decreases len - i,
    {
        let ghost rest = input@.skip(i as int);
        if i >= len {
            assert(rest.len() == 0);
            return ParseResult::Error(4);
        }
        let c = input[i];
        assert(rest[0] == c);
        if c == q {
            proof {
                lemma_quoted_body_bound(body, q);
                assert(quoted_body(rest, q) == Some(0int));
            }
            let text_bytes = vstd::slice::slice_subrange(input, 1, i);
            match utf8_str(text_bytes) {
                Some(t) => {
                    proof {
                        assert(input@.skip(i + 1) =~= input@.subrange(i + 1, len as int));
                    }
                    let after = slice_from(input, i + 1);
                    return ParseResult::Done(after, t);
                },
                None => {
                    return ParseResult::Error(2);
                },
            }
        } else if c == 0x5C {
            if i + 1 < len && (input[i + 1] == q || input[i + 1] == 0x5C || input[i + 1] == 0x6E) {
                proof {
                    assert(rest[1] == input@[i + 1]);
                    assert(rest.skip(2) =~= input@.skip(i + 2));
                }
                i += 2;
            } else {
                return ParseResult::Error(4);
            }
        } else {
            proof {
                assert(rest.drop_first() =~= input@.skip(i + 1));
            }
            i += 1;
        }
    }
}

/// A byte `nom::sp` skips: space, tab, carriage return or line feed.
pub open spec fn ws(c: u8) -> bool {
    c == 0x20 || c == 0x09 || c == 0x0D || c == 0x0A
}

/// The position of the first byte at or after `i` that is not whitespace.
pub open spec fn ws_end(b: Seq<u8>, i: int) -> int
    decreases b.len() - i,
{
    if 0 <= i < b.len() && ws(b[i]) {
        ws_end(b, i + 1)
    } else {
        i
    }
}

pub proof fn lemma_ws_end(b: Seq<u8>, i: int)
    requires
        0 <= i <= b.len(),
    ensures
        i <= ws_end(b, i) <= b.len(),
    decreases b.len() - i,
{
    if i < b.len() && ws(b[i]) {
        lemma_ws_end(b, i + 1);
    }
}

/// Skips whitespace from position `i`, as `nom::sp` does; it always
/// succeeds.
pub fn sp_at(input: &[u8], i: usize) -> (r: usize)
    requires
        i <= input@.len(),
    ensures
        r == ws_end(input@, i as int),
        i <= r <= input@.len(),
{
    let mut k = i;
    while k < input.len() && (input[k] == 0x20 || input[k] == 0x09 || input[k] == 0x0D || input[k] == 0x0A)
        invariant
            i <= k <= input@.len(),
            ws_end(input@, i as int) == ws_end(input@, k as int),
        decreases input@.len() - k,
    {
        k += 1;
    }
    k
}

pub proof fn lemma_ident_len(b: Seq<u8>)
    ensures
        0 <= ident_len(b) <= b.len(),
    decreases b.len(),
{
    if b.len() > 0 {
        lemma_ident_len(b.drop_first());
    }
}

/// An identifier at position `i`: its characters and the position after it.
pub open spec fn ident_at(b: Seq<u8>, i: int) -> Option<(Seq<char>, int)> {
    if 0 <= i < b.len() && (alpha(b[i]) || b[i] == 0x5F) {
        let n = 1 + ident_len(b.skip(i + 1));
        Some((ascii_chars(b.subrange(i, i + n)), i + n))
    } else {
        None
    }
}

/// Reads an identifier at position `i`.
pub fn ident_from<'a>(input: &'a [u8], i: usize) -> (r: Option<(&'a str, usize)>)
    requires
        i <= input@.len(),
    ensures
        match r {
            Some((s, j)) => ident_at(input@, i as int) == Some((s@, j as int)) && i < j <= input@.len(),
            None => ident_at(input@, i as int) is None,
        },
{
    let part = slice_from(input, i);
    proof {
        if i < input@.len() {
            assert(input@.skip(i + 1) =~= part@.drop_first());
            lemma_ident_len(part@.drop_first());
        }
    }
    match ident(part) {
        ParseResult::Done(rest, s) => {
            let ghost n = 1 + ident_len(part@.drop_first());
            assert(part@.take(n) =~= input@.subrange(i as int, i + n));
            assert(rest@.len() == part@.len() - n);
            Some((s, input.len() - rest.len()))
        },
        _ => None,
    }
}

/// A quoted string at position `i`: its text and the position after it.
pub open spec fn quoted_at(b: Seq<u8>, i: int) -> Option<(Seq<char>, int)> {
    if 0 <= i <= b.len() {
        match quoted_match(b.skip(i)) {
            Some(n) => match utf8_text(b.subrange(i + 1, i + n + 1)) {
                Some(t) => Some((t, i + n + 2)),
                None => None,
            },
            None => None,
        }
    } else {
        None
    }
}

/// Reads a quoted string at position `i`.
pub fn quoted_from<'a>(input: &'a [u8], i: usize) -> (r: Option<(&'a str, usize)>)
    requires
        i <= input@.len(),
    ensures
        match r {
            Some((s, j)) => quoted_at(input@, i as int) == Some((s@, j as int)) && i < j <= input@.len(),
            None => quoted_at(input@, i as int) is None,
        },
{
    let part = slice_from(input, i);
    proof {
        assert(input@.skip(i as int) =~= part@);
        if part@.len() > 0 {
            lemma_quoted_body_bound(part@.drop_first(), part@[0]);
        }
    }
    match quoted_str(part) {
        ParseResult::Done(rest, s) => {
            let ghost n = quoted_match(part@)->0;
            assert(part@.subrange(1, n + 1) =~= input@.subrange(i + 1, i + n + 1));
            assert(rest@.len() == part@.len() - (n + 2));
            Some((s, input.len() - rest.len()))
        },
        _ => {
            proof {
                if let Some(n) = quoted_match(part@) {
                    assert(part@.subrange(1, n + 1) =~= input@.subrange(i + 1, i + n + 1));
                }
            }
            None
        },
    }
}

fn slice_from(b: &[u8], i: usize) -> (r: &[u8])
    requires
        i <= b@.len(),
    ensures
        r@ == b@.subrange(i as int, b@.len() as int),
{
    vstd::slice::slice_subrange(b, i, b.len())
}

fn slice_to(b: &[u8], i: usize) -> (r: &[u8])
    requires
        i <= b@.len(),
    ensures
        r@ == b@.subrange(0, i as int),
{
    vstd::slice::slice_subrange(b, 0, i)
}

} // verus!
