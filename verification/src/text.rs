//! Small verified text helpers: case folding for ASCII letters,
//! whitespace trimming, keyword splitting, fixed-width padding and
//! hexadecimal rendering. Contracts are stated over `Seq<char>` views.

use vstd::prelude::*;

verus! {

/// The ASCII-lowercase image of one character.
pub open spec fn lower_char(c: char) -> char {
    if 65 <= c as u32 && c as u32 <= 90 {
        ((c as u32 + 32) as u8) as char
    } else {
        c
    }
}

/// The ASCII-lowercase image of a character sequence.
pub open spec fn lower_seq(s: Seq<char>) -> Seq<char> {
    s.map_values(|c: char| lower_char(c))
}

fn lower_char_exec(c: char) -> (r: char)
    ensures
        r == lower_char(c),
{
    let u = c as u32;
    if 65 <= u && u <= 90 {
        ((u + 32) as u8) as char
    } else {
        c
    }
}

/// Build a `String` from a vector of characters.
///
/// Relies on `String::from_iter` for `char`: the resulting string holds
/// exactly the given characters in order.
#[verifier::external_body]
pub(crate) fn chars_to_string(cs: &Vec<char>) -> (r: String)
    ensures
        r@ == cs@,
{
    String::from_iter(cs.iter())
}

/// Exact equality of two strings, by characters.
pub fn str_eq(a: &str, b: &str) -> (r: bool)
    ensures
        r == (a@ == b@),
{
    let a_len = a.unicode_len();
    let b_len = b.unicode_len();
    if a_len != b_len {
        return false;
    }
    let mut i: usize = 0;
    while i < a_len
        invariant
            i <= a_len,
            a_len == a@.len(),
            a_len == b@.len(),
            forall|j: int| 0 <= j < i ==> a@[j] == b@[j],
        decreases a_len - i,
    {
        if a.get_char(i) != b.get_char(i) {
            return false;
        }
        i += 1;
    }
    assert(a@ =~= b@);
    true
}

/// ASCII-case-insensitive equality of two strings.
pub fn eq_ignore_case(a: &str, b: &str) -> (r: bool)
    ensures
        r == (lower_seq(a@) == lower_seq(b@)),
{
    let a_len = a.unicode_len();
    let b_len = b.unicode_len();
    if a_len != b_len {
        assert(lower_seq(a@).len() != lower_seq(b@).len());
        return false;
    }
    let mut i: usize = 0;
    while i < a_len
        invariant
            i <= a_len,
            a_len == a@.len(),
            a_len == b@.len(),
            forall|j: int| 0 <= j < i ==> lower_char(a@[j]) == lower_char(b@[j]),
        decreases a_len - i,
    {
        let ca = lower_char_exec(a.get_char(i));
        let cb = lower_char_exec(b.get_char(i));
        if ca != cb {
            assert(lower_seq(a@)[i as int] != lower_seq(b@)[i as int]);
            return false;
        }
        i += 1;
    }
    assert(lower_seq(a@) =~= lower_seq(b@));
    true
}

/// Lowercase a whole string, ASCII letters only.
pub fn to_ascii_lower(s: &str) -> (r: String)
    ensures
        r@ == lower_seq(s@),
{
    let len = s.unicode_len();
    let mut out: Vec<char> = Vec::new();
    let mut i: usize = 0;
    while i < len
        invariant
            i <= len,
            len == s@.len(),
            out@.len() == i,
            forall|j: int| 0 <= j < i ==> out@[j] == lower_char(s@[j]),
        decreases len - i,
    {
        out.push(lower_char_exec(s.get_char(i)));
        i += 1;
    }
    let r = chars_to_string(&out);
    assert(r@ =~= lower_seq(s@));
    r
}

/// Whether the character counts as blank for trimming purposes.
pub open spec fn is_blank(c: char) -> bool {
    c == ' ' || c == '\t' || c == '\r' || c == '\n'
}

fn is_blank_exec(c: char) -> (r: bool)
    ensures
        r == is_blank(c),
{
    c == ' ' || c == '\t' || c == '\r' || c == '\n'
}

/// The length of the longest prefix of blank characters of `s`.
pub open spec fn leading_blanks(s: Seq<char>) -> int
    decreases s.len(),
{
    if s.len() == 0 || !is_blank(s[0]) {
        0
    } else {
        1 + leading_blanks(s.skip(1))
    }
}

/// `s` without leading and trailing blank characters.
pub open spec fn trimmed(s: Seq<char>) -> Seq<char> {
    let from = leading_blanks(s);
    let rest = s.skip(from);
    rest.take(rest.len() - leading_blanks(rest.reverse()))
}

/// Trim blanks from both ends of a string.
pub fn trim_blanks(s: &str) -> (r: String)
    ensures
        r@ == trimmed(s@),
{
    let len = s.unicode_len();
    let mut from: usize = 0;
    while from < len && is_blank_exec(s.get_char(from))
        invariant
            from <= len,
            len == s@.len(),
            forall|j: int| 0 <= j < from ==> is_blank(s@[j]),
        decreases len - from,
    {
        from += 1;
    }
    let mut to: usize = len;
    while to > from && is_blank_exec(s.get_char(to - 1))
        invariant
            from <= to <= len,
            len == s@.len(),
            forall|j: int| to <= j < len ==> is_blank(s@[j]),
        decreases to,
    {
        to -= 1;
    }
    let mut out: Vec<char> = Vec::new();
    let mut i: usize = from;
    while i < to
        invariant
            from <= i <= to <= len,
            len == s@.len(),
            out@.len() == i - from,
            forall|j: int| 0 <= j < out@.len() ==> out@[j] == s@[from + j],
        decreases to - i,
    {
        out.push(s.get_char(i));
        i += 1;
    }
    proof {
        lemma_leading_blanks_exact(s@, from as int);
        lemma_trimmed_window(s@, from as int, to as int);
    }
    let r = chars_to_string(&out);
    assert(r@ =~= trimmed(s@));
    r
}

/// The chunks of `s` between commas, in order. A text without commas
/// is one chunk; each comma ends a chunk, so `n` commas give `n + 1`
/// chunks, empty ones included.
pub open spec fn split_commas(s: Seq<char>) -> Seq<Seq<char>>
    decreases s.len(),
{
    if s.len() == 0 {
        seq![Seq::<char>::empty()]
    } else if s[0] == ',' {
        seq![Seq::<char>::empty()] + split_commas(s.skip(1))
    } else {
        let r = split_commas(s.skip(1));
        seq![seq![s[0]] + r[0]] + r.skip(1)
    }
}

proof fn lemma_split_no_comma(s: Seq<char>)
    requires
        forall|i: int| 0 <= i < s.len() ==> s[i] != ',',
    ensures
        split_commas(s) == seq![s],
    decreases s.len(),
{
    if s.len() == 0 {
        assert(s =~= Seq::<char>::empty());
        assert(split_commas(s) =~= seq![s]);
    } else {
        assert(forall|i: int| 0 <= i < s.skip(1).len() ==> s.skip(1)[i] == s[i + 1]);
        lemma_split_no_comma(s.skip(1));
        let r = split_commas(s.skip(1));
        assert(r == seq![s.skip(1)]);
        assert(split_commas(s) == seq![seq![s[0]] + r[0]] + r.skip(1));
        assert(r[0] == s.skip(1));
        assert(r.skip(1) =~= Seq::<Seq<char>>::empty());
        assert(seq![s[0]] + r[0] == s) by {
            assert(seq![s[0]] + s.skip(1) =~= s);
        }
        assert(split_commas(s) =~= seq![s]);
    }
}

proof fn lemma_split_at_comma(s: Seq<char>, k: int)
    requires
        0 <= k < s.len(),
        s[k] == ',',
        forall|i: int| 0 <= i < k ==> s[i] != ',',
    ensures
        split_commas(s) == seq![s.take(k)] + split_commas(s.skip(k + 1)),
    decreases k,
{
    if k == 0 {
        assert(s.take(0) =~= Seq::<char>::empty());
        assert(split_commas(s) =~= seq![s.take(0)] + split_commas(s.skip(1)));
    } else {
        let t = s.skip(1);
        assert(forall|i: int| 0 <= i < t.len() ==> t[i] == s[i + 1]);
        lemma_split_at_comma(t, k - 1);
        assert(t.skip(k) =~= s.skip(k + 1));
        let r = split_commas(t);
        assert(r[0] == t.take(k - 1));
        assert(seq![s[0]] + t.take(k - 1) =~= s.take(k));
        assert(r.skip(1) == split_commas(s.skip(k + 1)));
        assert(split_commas(s) =~= seq![s.take(k)] + split_commas(s.skip(k + 1)));
    }
}

fn split_from(s: &str, from: usize) -> (r: Vec<String>)
    requires
        from <= s@.len(),
    ensures
        r@.map_values(|t: String| t@) == split_commas(s@.skip(from as int)),
    decreases s@.len() - from,
{
    let len = s.unicode_len();
    let mut j: usize = from;
    while j < len && s.get_char(j) != ','
        invariant
            from <= j <= len,
            len == s@.len(),
            forall|k: int| from <= k < j ==> s@[k] != ',',
        decreases len - j,
    {
        j += 1;
    }
    let chunk = s.substring_char(from, j).to_owned();
    if j == len {
        proof {
            assert(forall|i: int|
                0 <= i < s@.skip(from as int).len() ==> s@.skip(from as int)[i] == s@[from + i]);
            lemma_split_no_comma(s@.skip(from as int));
            assert(chunk@ =~= s@.skip(from as int));
        }
        let r = vec![chunk];
        assert(r@.map_values(|t: String| t@) =~= split_commas(s@.skip(from as int)));
        r
    } else {
        let rest = split_from(s, j + 1);
        let mut r: Vec<String> = Vec::new();
        r.push(chunk);
        let mut i: usize = 0;
        while i < rest.len()
            invariant
                i <= rest@.len(),
                r@.len() == i + 1,
                r@[0] == chunk,
                forall|k: int| 0 <= k < i ==> r@[k + 1] == rest@[k],
            decreases rest@.len() - i,
        {
            let x = rest[i].clone();
            r.push(x);
            i += 1;
        }
        proof {
            let tail = s@.skip(from as int);
            assert(forall|i2: int| 0 <= i2 < tail.len() ==> tail[i2] == s@[from + i2]);
            lemma_split_at_comma(tail, j - from);
            assert(tail.take(j - from) =~= s@.subrange(from as int, j as int));
            assert(tail.skip(j - from + 1) =~= s@.skip(j + 1));
            assert(chunk@ =~= tail.take(j - from));
            assert(r@.map_values(|t: String| t@) =~= split_commas(tail));
        }
        r
    }
}

/// The non-empty keyword chunks of a comma-separated text, trimmed.
pub open spec fn keywords(s: Seq<char>) -> Seq<Seq<char>> {
    split_commas(s).map_values(|c: Seq<char>| trimmed(c)).filter(|c: Seq<char>| c.len() > 0)
}

/// Split a comma-separated keyword list: chunks are trimmed of blanks
/// and empty ones dropped.
pub fn split_keywords(s: &str) -> (r: Vec<String>)
    ensures
        r@.map_values(|t: String| t@) == keywords(s@),
{
    reveal(Seq::filter);
    let parts = split_from(s, 0);
    proof {
        assert(s@.skip(0) =~= s@);
    }
    let ghost chunks = parts@.map_values(|t: String| t@);
    let mut out: Vec<String> = Vec::new();
    let mut i: usize = 0;
    while i < parts.len()
        invariant
            i <= parts@.len(),
            chunks == parts@.map_values(|t: String| t@),
            chunks == split_commas(s@),
            out@.map_values(|t: String| t@) == chunks.take(i as int).map_values(
                |c: Seq<char>| trimmed(c),
            ).filter(|c: Seq<char>| c.len() > 0),
        decreases parts@.len() - i,
    {
        reveal(Seq::filter);
        let ghost prev = chunks.take(i as int).map_values(|c: Seq<char>| trimmed(c)).filter(
            |c: Seq<char>| c.len() > 0,
        );
        let t = trim_blanks(parts[i].as_str());
        if t.unicode_len() > 0 {
            out.push(t);
        }
        i += 1;
        proof {
            let cur = chunks.take(i as int).map_values(|c: Seq<char>| trimmed(c));
            assert(chunks.take(i as int) =~= chunks.take(i - 1).push(chunks[i - 1]));
            assert(cur =~= chunks.take(i - 1).map_values(|c: Seq<char>| trimmed(c)).push(
                trimmed(chunks[i - 1]),
            ));
            assert(cur.drop_last() =~= chunks.take(i - 1).map_values(|c: Seq<char>| trimmed(c)));
            assert(out@.map_values(|t2: String| t2@) =~= cur.filter(|c: Seq<char>| c.len() > 0));
        }
    }
    proof {
        assert(chunks.take(chunks.len() as int) =~= chunks);
    }
    out
}

/// A run of `n` space characters.
pub open spec fn spaces(n: int) -> Seq<char> {
    Seq::new(if n < 0 {
        0
    } else {
        n as nat
    }, |i: int| ' ')
}

/// `s` padded on the right with spaces to at least `width` characters.
pub open spec fn padded_right(s: Seq<char>, width: int) -> Seq<char> {
    s + spaces(width - s.len())
}

/// Pad a string on the right with spaces to at least `width` characters.
pub fn pad_right(s: &str, width: usize) -> (r: String)
    ensures
        r@ == padded_right(s@, width as int),
{
    let len = s.unicode_len();
    let mut r = String::new();
    r.append(s);
    let mut i: usize = len;
    while i < width
        invariant
            len == s@.len(),
            len <= i,
            i <= width || i == len,
            r@ == s@ + spaces(i - len),
        decreases width - i,
    {
        r.append(" ");
        i += 1;
        proof {
            reveal_strlit(" ");
            assert(" "@ =~= seq![' ']);
            assert(r@ =~= s@ + spaces(i - len));
        }
    }
    assert(r@ =~= padded_right(s@, width as int));
    r
}

/// The uppercase hexadecimal digit for a value below 16.
pub open spec fn hex_digit(d: int) -> char {
    if d < 10 {
        ((48 + d) as u8) as char
    } else {
        ((55 + d) as u8) as char
    }
}

/// The four-digit uppercase hexadecimal rendering of a 16-bit value.
pub open spec fn hex4_seq(n: u16) -> Seq<char> {
    seq![
        hex_digit(n as int / 4096 % 16),
        hex_digit(n as int / 256 % 16),
        hex_digit(n as int / 16 % 16),
        hex_digit(n as int % 16),
    ]
}

fn hex_digit_exec(d: u16) -> (r: char)
    requires
        d < 16,
    ensures
        r == hex_digit(d as int),
{
    if d < 10 {
        ((48 + d) as u8) as char
    } else {
        ((55 + d) as u8) as char
    }
}

/// Render a 16-bit value as four uppercase hexadecimal digits.
pub fn hex4(n: u16) -> (r: String)
    ensures
        r@ == hex4_seq(n),
{
    let mut out: Vec<char> = Vec::new();
    out.push(hex_digit_exec(n / 4096 % 16));
    out.push(hex_digit_exec(n / 256 % 16));
    out.push(hex_digit_exec(n / 16 % 16));
    out.push(hex_digit_exec(n % 16));
    let r = chars_to_string(&out);
    assert(r@ =~= hex4_seq(n));
    r
}

proof fn lemma_leading_blanks_exact(s: Seq<char>, i: int)
    requires
        0 <= i <= s.len(),
        forall|j: int| 0 <= j < i ==> is_blank(s[j]),
        i < s.len() ==> !is_blank(s[i]),
    ensures
        leading_blanks(s) == i,
    decreases i,
{
    if i == 0 {
    } else {
        assert(is_blank(s[0]));
        assert(forall|j: int| 0 <= j < i - 1 ==> is_blank(s.skip(1)[j]));
        assert(i - 1 < s.skip(1).len() ==> !is_blank(s.skip(1)[i - 1]));
        lemma_leading_blanks_exact(s.skip(1), i - 1);
    }
}

proof fn lemma_trimmed_window(s: Seq<char>, from: int, to: int)
    requires
        0 <= from <= to <= s.len(),
        leading_blanks(s) == from,
        forall|j: int| to <= j < s.len() ==> is_blank(s[j]),
        to > from ==> !is_blank(s[to - 1]),
    ensures
        trimmed(s) =~= s.subrange(from, to),
{
    let rest = s.skip(from);
    let rev = rest.reverse();
    assert(rev.len() == s.len() - from);
    assert(forall|j: int| 0 <= j < s.len() - to ==> is_blank(rev[j])) by {
        assert(forall|j: int| 0 <= j < s.len() - to ==> rev[j] == s[s.len() - 1 - j]);
    }
    if to > from {
        assert(rev[s.len() - to] == s[to - 1]);
        lemma_leading_blanks_exact(rev, s.len() - to);
    } else {
        lemma_leading_blanks_exact(rev, rev.len() as int);
    }
    assert(trimmed(s) =~= rest.take(to - from));
}

} // verus!
