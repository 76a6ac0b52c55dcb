//! Helpers on text.
use vstd::prelude::*;
use vstd::std_specs::iter::IteratorSpec;
use vstd::string::StringSliceAdditionalSpecFns;
use vstd::utf8::*;

verus! {

/// `String::push` adds one character at the end.
pub assume_specification[ String::push ](s: &mut String, c: char)
    ensures
        final(s)@ == old(s)@.push(c),
;

/// What `str::to_uppercase` makes of a text.
pub uninterp spec fn unicode_upper(s: Seq<char>) -> Seq<char>;

/// `str::to_uppercase`: the result is a function of the text alone, and on ASCII text it
/// replaces each lowercase letter by its capital. What it does to other text is left unsaid.
#[verifier::external_body]
pub(crate) fn unicode_uppercase(s: &str) -> (r: String)
    ensures
        r@ == unicode_upper(s@),
        is_ascii_chars(s@) ==> r@ == upper(s@),
{
    s.to_uppercase()
}

pub open spec fn upper_char(c: char) -> char {
    if 'a' <= c && c <= 'z' {
        ((c as u8) - 32) as char
    } else {
        c
    }
}

/// The text with each of the letters `a` to `z` replaced by its capital.
pub open spec fn upper(s: Seq<char>) -> Seq<char> {
    s.map_values(|c: char| upper_char(c))
}

/// A run of spaces.
pub open spec fn spaces(n: int) -> Seq<char> {
    Seq::new(
        if n > 0 {
            n as nat
        } else {
            0
        },
        |i: int| ' ',
    )
}

/// The text filled up with spaces on its right to `width` characters.
pub open spec fn left_aligned(s: Seq<char>, width: int) -> Seq<char> {
    s + spaces(width - s.len())
}

/// The text filled up with spaces on its left to `width` characters.
pub open spec fn right_aligned(s: Seq<char>, width: int) -> Seq<char> {
    spaces(width - s.len()) + s
}

/// The first `n` characters, or all of them where there are fewer.
pub open spec fn prefix(s: Seq<char>, n: int) -> Seq<char> {
    if s.len() <= n {
        s
    } else {
        s.take(n)
    }
}

/// Where `c` first occurs in `s`, or the length of `s` where it does not.
pub open spec fn position(s: Seq<char>, c: char) -> int
    decreases s.len(),
{
    if s.len() == 0 || s[0] == c {
        0
    } else {
        1 + position(s.drop_first(), c)
    }
}

/// The parts before and after the first `c`.
pub open spec fn split_once(s: Seq<char>, c: char) -> Option<(Seq<char>, Seq<char>)> {
    let i = position(s, c);
    if i < s.len() {
        Some((s.take(i), s.skip(i + 1)))
    } else {
        None
    }
}

/// Whether an account can be shown in its short form: the cuts fall between two characters.
pub open spec fn can_label(account: Seq<char>) -> bool {
    let bytes = encode_utf8(account);
    bytes.len() > 8 ==> is_char_boundary(bytes, 4) && is_char_boundary(bytes, bytes.len() - 4)
}

/// An account in its short form: the first and the last four bytes of a long one.
pub open spec fn label(account: Seq<char>) -> Seq<char> {
    let bytes = encode_utf8(account);
    if bytes.len() > 8 {
        decode_utf8(bytes.take(4)) + "…"@ + decode_utf8(bytes.skip(bytes.len() - 4))
    } else {
        account
    }
}

pub open spec fn opt_text(o: Option<String>) -> Option<Seq<char>> {
    match o {
        Some(s) => Some(s@),
        None => None,
    }
}

/// The texts of a list.
pub open spec fn texts(list: Seq<String>) -> Seq<Seq<char>> {
    list.map_values(|s: String| s@)
}

/// Whether two texts are the same.
pub(crate) fn same(a: &str, b: &str) -> (r: bool)
    ensures
        r == (a@ == b@),
{
    a.to_owned() == b.to_owned()
}

pub(crate) fn chars_of(s: &str) -> (r: Vec<char>)
    ensures
        r@ == s@,
{
    let mut r: Vec<char> = Vec::new();
    let n: usize = s.unicode_len();
    let mut rest = s.chars();
    let mut i: usize = 0;
    while i < n
        invariant
            i <= n,
            n == s@.len(),
            r@ == s@.take(i as int),
            IteratorSpec::remaining(&rest) == s@.skip(i as int),
            IteratorSpec::obeys_prophetic_iter_laws(&rest),
        decreases n - i,
    {
        match rest.next() {
            Some(c) => {
                r.push(c);
            },
            None => {},
        }
        i = i + 1;
        assert(s@.take(i as int) =~= s@.take(i - 1).push(s@[i - 1]));
        assert(s@.skip(i as int) =~= s@.skip(i - 1).drop_first());
    }
    assert(s@.take(n as int) =~= s@);
    r
}

pub(crate) fn uppercase(s: &str) -> (r: String)
    ensures
        r@ == upper(s@),
{
    let chars: Vec<char> = chars_of(s);
    let mut r: String = String::new();
    let mut i: usize = 0;
    while i < chars.len()
        invariant
            i <= chars.len(),
            chars@ == s@,
            r@ == upper(s@.take(i as int)),
        decreases chars.len() - i,
    {
        let c: char = chars[i];
        let big: char = if 'a' <= c && c <= 'z' {
            ((c as u8) - 32) as char
        } else {
            c
        };
        r.push(big);
        i = i + 1;
        assert(upper(s@.take(i as int)) =~= upper(s@.take(i - 1)).push(upper_char(s@[i - 1])));
    }
    assert(s@.take(s@.len() as int) =~= s@);
    r
}

pub(crate) fn append_spaces(out: &mut String, n: usize)
    ensures
        final(out)@ == old(out)@ + spaces(n as int),
{
    let mut i: usize = 0;
    assert(out@ =~= old(out)@ + spaces(0));
    while i < n
        invariant
            i <= n,
            out@ == old(out)@ + spaces(i as int),
        decreases n - i,
    {
        out.push(' ');
        i = i + 1;
        assert(out@ =~= old(out)@ + spaces(i as int));
    }
}

/// Appends `s`, filled up with spaces on its right to `width` characters.
pub(crate) fn append_left(out: &mut String, s: &str, width: usize)
    ensures
        final(out)@ == old(out)@ + left_aligned(s@, width as int),
{
    let n: usize = s.unicode_len();
    out.append(s);
    if n < width {
        append_spaces(out, width - n);
    }
    assert(out@ =~= old(out)@ + left_aligned(s@, width as int));
}

/// Appends `s`, filled up with spaces on its left to `width` characters.
pub(crate) fn append_right(out: &mut String, s: &str, width: usize)
    ensures
        final(out)@ == old(out)@ + right_aligned(s@, width as int),
{
    let n: usize = s.unicode_len();
    if n < width {
        append_spaces(out, width - n);
    }
    out.append(s);
    assert(out@ =~= old(out)@ + right_aligned(s@, width as int));
}

pub(crate) fn take_prefix(s: &str, n: usize) -> (r: String)
    ensures
        r@ == prefix(s@, n as int),
{
    let len: usize = s.unicode_len();
    if len <= n {
        s.to_owned()
    } else {
        let part: &str = s.substring_char(0, n);
        assert(s@.subrange(0, n as int) =~= s@.take(n as int));
        part.to_owned()
    }
}

proof fn lemma_position(s: Seq<char>, c: char, i: int)
    requires
        0 <= i <= s.len(),
        forall|j: int| 0 <= j < i ==> s[j] != c,
        i < s.len() ==> s[i] == c,
    ensures
        position(s, c) == i,
    decreases s.len(),
{
    if i > 0 {
        assert(s[0] != c);
        let t = s.drop_first();
        assert forall|j: int| 0 <= j < i - 1 implies t[j] != c by {
            assert(t[j] == s[j + 1]);
        }
        lemma_position(t, c, i - 1);
    }
}

pub(crate) fn split_text(s: &str, c: char) -> (r: Option<(String, String)>)
    ensures
        match split_once(s@, c) {
            Some(parts) => r matches Some(p) && p.0@ == parts.0 && p.1@ == parts.1,
            None => r is None,
        },
{
    let chars: Vec<char> = chars_of(s);
    let n: usize = chars.len();
    let mut i: usize = 0;
    while i < n && chars[i] != c
        invariant
            i <= n,
            n == chars@.len(),
            forall|j: int| 0 <= j < i ==> chars@[j] != c,
        decreases n - i,
    {
        i = i + 1;
    }
    proof {
        lemma_position(s@, c, i as int);
    }
    if i < n {
        let head: &str = s.substring_char(0, i);
        let tail: &str = s.substring_char(i + 1, n);
        assert(s@.subrange(0, i as int) =~= s@.take(i as int));
        assert(s@.subrange(i + 1, n as int) =~= s@.skip(i + 1));
        Some((head.to_owned(), tail.to_owned()))
    } else {
        None
    }
}

/// Whether an account can be shown in its short form.
pub fn has_label(account: &str) -> (r: bool)
    ensures
        r == can_label(account@),
{
    let n: usize = account.as_bytes().len();
    n <= 8 || (account.is_char_boundary(4) && account.is_char_boundary(n - 4))
}

/// The short form in which reports show an account.
pub fn account_label(account: &str) -> (r: String)
    requires
        can_label(account@),
    ensures
        r@ == label(account@),
{
    broadcast use encode_utf8_decode_utf8;

    let n: usize = account.as_bytes().len();
    if n > 8 {
        let (head, _) = account.split_at(4);
        let (_, tail) = account.split_at(n - 4);
        let mut r: String = head.to_owned();
        r.append("…");
        r.append(tail);
        proof {
            let bytes = encode_utf8(account@);
            assert(head.spec_bytes() =~= bytes.take(4));
            assert(tail.spec_bytes() =~= bytes.skip(n - 4));
        }
        r
    } else {
        account.to_owned()
    }
}

/// On ASCII text, of which every account number is made, the short form is always there: it
/// keeps the first and the last four characters.
pub proof fn law_label_of_ascii(account: Seq<char>)
    requires
        is_ascii_chars(account),
    ensures
        can_label(account),
        account.len() > 8 ==> label(account) == account.take(4) + "…"@ + account.skip(
            account.len() - 4,
        ),
        account.len() <= 8 ==> label(account) == account,
{
    broadcast use encode_utf8_decode_utf8;

    is_ascii_chars_encode_utf8(account);
    let bytes = encode_utf8(account);
    assert(bytes.len() == account.len());
    if account.len() > 8 {
        let head = account.take(4);
        let tail = account.skip(account.len() - 4);
        encode_utf8_valid_utf8(account);
        assert(account[4] as u8 == bytes[4]);
        assert(account[account.len() - 4] as u8 == bytes[bytes.len() - 4]);
        is_char_boundary_iff_not_is_continuation_byte(bytes, 4);
        is_char_boundary_iff_not_is_continuation_byte(bytes, bytes.len() - 4);
        assert(is_ascii_chars(head));
        assert(is_ascii_chars(tail));
        is_ascii_chars_encode_utf8(head);
        is_ascii_chars_encode_utf8(tail);
        assert(bytes.take(4) =~= encode_utf8(head));
        assert(bytes.skip(bytes.len() - 4) =~= encode_utf8(tail));
    }
}

/// Capitals replace the letters `a` to `z` and nothing else, each in its place.
pub proof fn law_upper_changes_small_letters(s: Seq<char>, i: int)
    requires
        0 <= i < s.len(),
    ensures
        upper(s).len() == s.len(),
        97 <= s[i] as int <= 122 ==> upper(s)[i] as int == s[i] as int - 32,
        !(97 <= s[i] as int <= 122) ==> upper(s)[i] == s[i],
{
}

/// A text filled up to a width keeps its characters on its side, has spaces on the other, and is
/// never cut.
pub proof fn law_alignment_only_adds_spaces(s: Seq<char>, width: int, i: int)
    ensures
        left_aligned(s, width).len() == if width > s.len() {
            width
        } else {
            s.len() as int
        },
        right_aligned(s, width).len() == left_aligned(s, width).len(),
        left_aligned(s, width).take(s.len() as int) == s,
        right_aligned(s, width).skip(right_aligned(s, width).len() - s.len()) == s,
        s.len() <= i < width ==> left_aligned(s, width)[i] == ' ',
        0 <= i < width - s.len() ==> right_aligned(s, width)[i] == ' ',
{
    assert(left_aligned(s, width).take(s.len() as int) =~= s);
    assert(right_aligned(s, width).skip(right_aligned(s, width).len() - s.len()) =~= s);
}

/// The start of a text has its first characters, as many as were asked for or as there are.
pub proof fn law_prefix_is_the_start(s: Seq<char>, n: int, i: int)
    requires
        n >= 0,
    ensures
        prefix(s, n).len() == if n < s.len() {
            n
        } else {
            s.len() as int
        },
        0 <= i < prefix(s, n).len() ==> prefix(s, n)[i] == s[i],
{
}

/// A text is cut at the first place where a character stands: putting it back between the parts
/// gives the text, and the first part is without it. A text without it is not cut.
pub proof fn law_split_at_the_first(s: Seq<char>, c: char)
    ensures
        split_once(s, c) is None <==> !s.contains(c),
        split_once(s, c) matches Some(parts) ==> parts.0.push(c) + parts.1 == s
            && !parts.0.contains(c),
{
    lemma_first_position(s, c);
    let i = position(s, c);
    if i < s.len() {
        assert(s.take(i).push(c) + s.skip(i + 1) =~= s);
        assert(s[i] == c);
        if s.take(i).contains(c) {
            let j = choose|j: int| 0 <= j < i && s.take(i)[j] == c;
            assert(s[j] == c);
        }
    } else if s.contains(c) {
        let j = choose|j: int| 0 <= j < s.len() && s[j] == c;
        assert(s[j] == c);
    }
}

proof fn lemma_first_position(s: Seq<char>, c: char)
    ensures
        0 <= position(s, c) <= s.len(),
        position(s, c) < s.len() ==> s[position(s, c)] == c,
        forall|j: int| 0 <= j < position(s, c) ==> s[j] != c,
    decreases s.len(),
{
    if s.len() > 0 && s[0] != c {
        let t = s.drop_first();
        lemma_first_position(t, c);
        assert forall|j: int| 0 <= j < position(s, c) implies s[j] != c by {
            if j > 0 {
                assert(s[j] == t[j - 1]);
            }
        }
    }
}

/// Texts are seen as they are, one by one, and a missing one as missing.
pub proof fn law_texts_are_seen(text: String, list: Seq<String>, i: int)
    ensures
        opt_text(Some(text)) == Some(text@),
        opt_text(None) is None,
        texts(list).len() == list.len(),
        0 <= i < list.len() ==> texts(list)[i] == list[i]@,
{
}

/// An account of up to eight bytes is shown as it is. Of a longer one the first and the last four
/// bytes are shown, which can be done just where both cuts fall between two characters.
pub proof fn law_long_accounts_are_shortened(account: Seq<char>)
    ensures
        encode_utf8(account).len() <= 8 ==> can_label(account) && label(account) == account,
        encode_utf8(account).len() > 8 ==> (can_label(account) <==> is_char_boundary(
            encode_utf8(account),
            4,
        ) && is_char_boundary(encode_utf8(account), encode_utf8(account).len() - 4)),
        encode_utf8(account).len() > 8 ==> label(account) == decode_utf8(
            encode_utf8(account).subrange(0, 4),
        ) + "…"@ + decode_utf8(
            encode_utf8(account).subrange(
                encode_utf8(account).len() - 4,
                encode_utf8(account).len() as int,
            ),
        ),
{
    let bytes = encode_utf8(account);
    if bytes.len() > 8 {
        assert(bytes.subrange(0, 4) =~= bytes.take(4));
        assert(bytes.subrange(bytes.len() - 4, bytes.len() as int) =~= bytes.skip(bytes.len() - 4));
    }
}

} // verus!
