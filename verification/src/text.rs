//! Operations on text that the rest of the library is built from.

use vstd::prelude::*;

verus! {

/// The pieces of `parts` in order, with `sep` between neighbours and nowhere else.
pub open spec fn joined(parts: Seq<Seq<char>>, sep: char) -> Seq<char>
    decreases parts.len(),
{
    if parts.len() == 0 {
        Seq::empty()
    } else {
        let before = parts.drop_last();
        let lead = if before.len() == 0 {
            Seq::empty()
        } else {
            joined(before, sep).push(sep)
        };
        lead + parts.last()
    }
}

/// Joining two non-empty runs of pieces is joining each and putting one
/// separator between the results.
pub proof fn law_joined_splits(first: Seq<Seq<char>>, second: Seq<Seq<char>>, sep: char)
    requires
        first.len() > 0,
        second.len() > 0,
    ensures
        joined(first + second, sep) == joined(first, sep).push(sep) + joined(second, sep),
    decreases second.len(),
{
    let both = first + second;
    let rest = second.drop_last();
    assert(both.drop_last() =~= first + rest);
    if rest.len() == 0 {
        assert(first + rest =~= first);
        assert(joined(rest, sep) =~= Seq::empty());
        assert(joined(second, sep) =~= second.last());
    } else {
        law_joined_splits(first, rest, sep);
        assert(joined(both, sep) =~= joined(first, sep).push(sep) + joined(second, sep));
    }
}

/// Joining nothing gives nothing, and joining one piece gives that piece.
pub proof fn law_joined_few(piece: Seq<char>, sep: char)
    ensures
        joined(Seq::empty(), sep) == Seq::<char>::empty(),
        joined(seq![piece], sep) == piece,
{
    assert(seq![piece].drop_last() =~= Seq::empty());
    assert(joined(seq![piece], sep) =~= piece);
}

/// Whether two strings hold the same characters.
pub fn same_text(a: &str, b: &str) -> (same: bool)
    ensures
        same == (a@ == b@),
{
    a.to_owned() == b.to_owned()
}

/// `s` without one leading `prefix`; `s` itself where it does not start so.
pub open spec fn without_prefix(s: Seq<char>, prefix: Seq<char>) -> Seq<char> {
    if prefix.is_prefix_of(s) {
        s.skip(prefix.len() as int)
    } else {
        s
    }
}

/// What follows a prefix is what is left without it, whatever it is; a text
/// that does not start with the prefix is left as it is.
pub proof fn law_prefix_comes_off(s: Seq<char>, prefix: Seq<char>)
    ensures
        without_prefix(prefix + s, prefix) == s,
        prefix.is_prefix_of(s) ==> s == prefix + without_prefix(s, prefix),
        !prefix.is_prefix_of(s) ==> without_prefix(s, prefix) == s,
{
    let both = prefix + s;
    assert(both.take(prefix.len() as int) =~= prefix);
    assert(both.skip(prefix.len() as int) =~= s);
    if prefix.is_prefix_of(s) {
        assert(s =~= prefix + s.skip(prefix.len() as int));
    }
}

/// `s` without one leading `prefix`.
pub fn strip_prefix<'a>(s: &'a str, prefix: &str) -> (rest: &'a str)
    ensures
        rest@ == without_prefix(s@, prefix@),
        prefix@.is_prefix_of(s@) ==> s@ == prefix@ + rest@,
        !prefix@.is_prefix_of(s@) ==> rest@ == s@,
{
    proof {
        law_prefix_comes_off(s@, prefix@);
    }
    let len: usize = s.unicode_len();
    let cut: usize = prefix.unicode_len();
    if cut <= len && same_text(s.substring_char(0, cut), prefix) {
        s.substring_char(cut, len)
    } else {
        s
    }
}

/// The characters with the Unicode property `White_Space`.
pub open spec fn white_space(c: char) -> bool {
    let code = c as int;
    ||| 0x9 <= code <= 0xd
    ||| code == 0x20
    ||| code == 0x85
    ||| code == 0xa0
    ||| code == 0x1680
    ||| 0x2000 <= code <= 0x200a
    ||| code == 0x2028
    ||| code == 0x2029
    ||| code == 0x202f
    ||| code == 0x205f
    ||| code == 0x3000
}

/// Whether a character has the Unicode property `White_Space`.
pub fn is_white_space(c: char) -> (yes: bool)
    ensures
        yes == white_space(c),
{
    let code: u32 = c as u32;
    (0x9 <= code && code <= 0xd) || code == 0x20 || code == 0x85 || code == 0xa0 || code == 0x1680
        || (0x2000 <= code && code <= 0x200a) || code == 0x2028 || code == 0x2029 || code == 0x202f
        || code == 0x205f || code == 0x3000
}

/// `s` without the white space at either end.
pub open spec fn trimmed(s: Seq<char>) -> Seq<char>
    decreases s.len(),
{
    if s.len() == 0 {
        s
    } else if white_space(s.first()) {
        trimmed(s.drop_first())
    } else if white_space(s.last()) {
        trimmed(s.drop_last())
    } else {
        s
    }
}

/// What is left of a text after trimming neither begins nor ends in white
/// space, and is the text between its leading and its trailing white space.
pub proof fn law_trimmed(s: Seq<char>) -> (at: int)
    ensures
        0 <= at <= at + trimmed(s).len() <= s.len(),
        s.subrange(at, at + trimmed(s).len()) == trimmed(s),
        forall|i: int| 0 <= i < at ==> white_space(#[trigger] s[i]),
        forall|i: int| at + trimmed(s).len() <= i < s.len() ==> white_space(#[trigger] s[i]),
        trimmed(s).len() > 0 ==> !white_space(trimmed(s).first()) && !white_space(
            trimmed(s).last(),
        ),
    decreases s.len(),
{
    if s.len() == 0 {
        0
    } else if white_space(s.first()) {
        let rest = s.drop_first();
        let at = law_trimmed(rest);
        assert(s.subrange(at + 1, at + 1 + trimmed(s).len()) =~= rest.subrange(
            at,
            at + trimmed(s).len(),
        ));
        assert forall|i: int| 0 <= i < at + 1 implies white_space(#[trigger] s[i]) by {
            if i > 0 {
                assert(rest[i - 1] == s[i]);
            }
        }
        assert forall|i: int| at + 1 + trimmed(s).len() <= i < s.len() implies white_space(
            #[trigger] s[i],
        ) by {
            assert(rest[i - 1] == s[i]);
        }
        at + 1
    } else if white_space(s.last()) {
        let rest = s.drop_last();
        let at = law_trimmed(rest);
        assert(s.subrange(at, at + trimmed(s).len()) =~= rest.subrange(
            at,
            at + trimmed(s).len(),
        ));
        assert forall|i: int| 0 <= i < at implies white_space(#[trigger] s[i]) by {
            assert(rest[i] == s[i]);
        }
        assert forall|i: int| at + trimmed(s).len() <= i < s.len() implies white_space(
            #[trigger] s[i],
        ) by {
            if i < rest.len() {
                assert(rest[i] == s[i]);
            }
        }
        at
    } else {
        assert(s.subrange(0, s.len() as int) =~= s);
        0
    }
}

/// Trimming a text that lies between white space gives that text, where it
/// is empty or begins and ends in something else.
proof fn lemma_trimmed_between(s: Seq<char>, from: int, to: int)
    requires
        0 <= from <= to <= s.len(),
        forall|i: int| 0 <= i < from ==> white_space(#[trigger] s[i]),
        forall|i: int| to <= i < s.len() ==> white_space(#[trigger] s[i]),
        from < to ==> !white_space(s[from]) && !white_space(s[to - 1]),
    ensures
        trimmed(s) == s.subrange(from, to),
    decreases s.len(),
{
    if s.len() == 0 {
        assert(s.subrange(from, to) =~= s);
    } else if from > 0 {
        assert(white_space(s[0]));
        lemma_trimmed_between(s.drop_first(), from - 1, to - 1);
        assert(s.subrange(from, to) =~= s.drop_first().subrange(from - 1, to - 1));
    } else if to < s.len() {
        assert(white_space(s[s.len() - 1]));
        if from == to {
            assert(white_space(s[0]));
            lemma_trimmed_between(s.drop_first(), 0, 0);
            assert(s.subrange(from, to) =~= s.drop_first().subrange(0, 0));
        } else {
            lemma_trimmed_between(s.drop_last(), from, to);
            assert(s.subrange(from, to) =~= s.drop_last().subrange(from, to));
        }
    } else {
        assert(s.subrange(from, to) =~= s);
    }
}

/// `s` without the white space at either end.
pub fn trim<'a>(s: &'a str) -> (rest: &'a str)
    ensures
        rest@ == trimmed(s@),
{
    let mut from: usize = 0;
    let mut to: usize = 0;
    let mut seen: usize = 0;
    let len: usize = s.unicode_len();
    for c in it: s.chars()
        invariant
            it.seq() == s@,
            len == s@.len(),
            seen == it.index(),
            from <= to <= seen,
            forall|i: int| 0 <= i < from ==> white_space(#[trigger] s@[i]),
            forall|i: int| to <= i < seen ==> white_space(#[trigger] s@[i]),
            from < to ==> !white_space(s@[from as int]) && !white_space(s@[to - 1]),
    {
        if !is_white_space(c) {
            if from == to {
                from = seen;
            }
            to = seen + 1;
        }
        seen += 1;
    }
    proof {
        lemma_trimmed_between(s@, from as int, to as int);
    }
    s.substring_char(from, to)
}

/// The character of a decimal digit.
pub open spec fn digit(d: nat) -> char {
    (('0' as nat) + d) as char
}

/// A number in decimal, without leading zeros.
pub open spec fn decimal(n: nat) -> Seq<char>
    decreases n,
{
    if n < 10 {
        seq![digit(n)]
    } else {
        decimal(n / 10).push(digit(n % 10))
    }
}

/// A digit stands for itself, and a digit behind a number stands for ten
/// times the number and the digit.
pub proof fn law_decimal_appends_digits(n: nat, d: nat)
    requires
        d < 10,
    ensures
        decimal(d).len() == 1,
        decimal(d)[0] as int == 48 + d,
        n > 0 ==> decimal(10 * n + d).drop_last() == decimal(n),
        decimal(10 * n + d).last() as int == 48 + d,
{
    if n > 0 {
        let more = 10 * n + d;
        assert(more / 10 == n && more % 10 == d);
        assert(decimal(more).drop_last() =~= decimal(n));
    }
}

/// The text of a decimal digit.
fn digit_text(d: u64) -> (text: &'static str)
    requires
        d < 10,
    ensures
        text@ == seq![digit(d as nat)],
{
    proof {
        reveal_strlit("0");
        reveal_strlit("1");
        reveal_strlit("2");
        reveal_strlit("3");
        reveal_strlit("4");
        reveal_strlit("5");
        reveal_strlit("6");
        reveal_strlit("7");
        reveal_strlit("8");
        reveal_strlit("9");
    }
    match d {
        0 => "0",
        1 => "1",
        2 => "2",
        3 => "3",
        4 => "4",
        5 => "5",
        6 => "6",
        7 => "7",
        8 => "8",
        _ => "9",
    }
}

/// A number in decimal.
pub fn decimal_text(n: u64) -> (text: String)
    ensures
        text@ == decimal(n as nat),
    decreases n,
{
    if n < 10 {
        digit_text(n).to_owned()
    } else {
        let mut text = decimal_text(n / 10);
        text.append(digit_text(n % 10));
        text
    }
}

/// What a reader of a NUL-terminated string can be given of `s`: `s` itself,
/// or nothing where a NUL inside it would cut it short.
pub open spec fn nul_free(s: Seq<char>) -> Seq<char> {
    if s.contains('\0') {
        Seq::empty()
    } else {
        s
    }
}

/// A text without a NUL is handed out as it is, whatever its length and
/// whatever it starts with; of one with a NUL nothing is handed out.
pub proof fn law_text_without_nul_is_handed_out_whole(s: Seq<char>)
    ensures
        (forall|i: int| 0 <= i < s.len() ==> #[trigger] s[i] != '\0') ==> nul_free(s) == s,
        (exists|i: int| 0 <= i < s.len() && #[trigger] s[i] == '\0') ==> nul_free(s).len() == 0,
{
}

/// The text to hand out as a NUL-terminated string.
pub fn c_text(s: String) -> (text: String)
    ensures
        text@ == nul_free(s@),
        !text@.contains('\0'),
        !s@.contains('\0') ==> text@ == s@,
        s@.contains('\0') ==> text@.len() == 0,
{
    for c in it: s.as_str().chars()
        invariant
            it.seq() == s@,
            forall|i: int| 0 <= i < it.index() ==> s@[i] != '\0',
    {
        if c == '\0' {
            assert(s@[it.index()] == '\0');
            return String::new();
        }
    }
    s
}

/// Whether a text is free of NUL characters.
pub open spec fn lacks_nul(s: Seq<char>) -> bool {
    forall|i: int| 0 <= i < s.len() ==> #[trigger] s[i] != '\0'
}

/// Joining texts without NUL characters adds none.
pub(crate) proof fn lemma_joined_lacks_nul(parts: Seq<Seq<char>>, sep: char)
    requires
        sep != '\0',
        forall|i: int| 0 <= i < parts.len() ==> lacks_nul(#[trigger] parts[i]),
    ensures
        lacks_nul(joined(parts, sep)),
    decreases parts.len(),
{
    if parts.len() > 0 {
        let before = parts.drop_last();
        assert forall|i: int| 0 <= i < before.len() implies lacks_nul(#[trigger] before[i]) by {
            assert(before[i] == parts[i]);
        }
        lemma_joined_lacks_nul(before, sep);
        assert(lacks_nul(parts[parts.len() - 1]));
    }
}

/// A NUL in a piece is a NUL in the joined text.
pub(crate) proof fn lemma_joined_keeps_nul(parts: Seq<Seq<char>>, sep: char, at: int)
    requires
        0 <= at < parts.len(),
        parts[at].contains('\0'),
    ensures
        joined(parts, sep).contains('\0'),
    decreases parts.len(),
{
    let before = parts.drop_last();
    let whole = joined(parts, sep);
    let lead = if before.len() == 0 {
        Seq::empty()
    } else {
        joined(before, sep).push(sep)
    };
    assert(whole == lead + parts.last());
    if at == parts.len() - 1 {
        let i = choose|i: int| 0 <= i < parts[at].len() && parts[at][i] == '\0';
        assert(whole[lead.len() + i] == '\0');
    } else {
        lemma_joined_keeps_nul(before, sep, at);
        let i = choose|i: int|
            0 <= i < joined(before, sep).len() && joined(before, sep)[i] == '\0';
        assert(whole[i] == '\0');
    }
}

/// A decimal number holds no NUL.
pub(crate) proof fn lemma_decimal_lacks_nul(n: nat)
    ensures
        lacks_nul(decimal(n)),
    decreases n,
{
    if n >= 10 {
        lemma_decimal_lacks_nul(n / 10);
    }
}

} // verus!
