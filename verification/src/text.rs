//! Text helpers: decimal rendering, padding, line splitting and substring tests.
use vstd::prelude::*;

verus! {

/// The character of a decimal digit.
pub open spec fn digit_char(d: nat) -> char {
    if d == 0 { '0' }
    else if d == 1 { '1' }
    else if d == 2 { '2' }
    else if d == 3 { '3' }
    else if d == 4 { '4' }
    else if d == 5 { '5' }
    else if d == 6 { '6' }
    else if d == 7 { '7' }
    else if d == 8 { '8' }
    else { '9' }
}

/// The decimal rendering of a natural number, without leading zeros.
pub open spec fn decimal(n: nat) -> Seq<char>
    decreases n,
{
    if n < 10 {
        seq![digit_char(n)]
    } else {
        decimal(n / 10).push(digit_char(n % 10))
    }
}

/// The decimal rendering of an integer, with a leading '-' when negative.
pub open spec fn signed_decimal(i: int) -> Seq<char> {
    if i < 0 {
        seq!['-'] + decimal((-i) as nat)
    } else {
        decimal(i as nat)
    }
}

/// A run of `n` spaces.
pub open spec fn spaces(n: nat) -> Seq<char> {
    Seq::new(n, |i: int| ' ')
}

/// `s` right-aligned in a field of `width` characters, as `{:>width}` does.
pub open spec fn pad_left(s: Seq<char>, width: nat) -> Seq<char> {
    if s.len() < width {
        spaces((width - s.len()) as nat) + s
    } else {
        s
    }
}

/// Appends one decimal digit.
fn push_digit(s: &mut String, d: u64)
    requires
        d < 10,
    ensures
        final(s)@ == old(s)@.push(digit_char(d as nat)),
{
    if d == 0 {
        proof { reveal_strlit("0"); }
        s.append("0");
    } else if d == 1 {
        proof { reveal_strlit("1"); }
        s.append("1");
    } else if d == 2 {
        proof { reveal_strlit("2"); }
        s.append("2");
    } else if d == 3 {
        proof { reveal_strlit("3"); }
        s.append("3");
    } else if d == 4 {
        proof { reveal_strlit("4"); }
        s.append("4");
    } else if d == 5 {
        proof { reveal_strlit("5"); }
        s.append("5");
    } else if d == 6 {
        proof { reveal_strlit("6"); }
        s.append("6");
    } else if d == 7 {
        proof { reveal_strlit("7"); }
        s.append("7");
    } else if d == 8 {
        proof { reveal_strlit("8"); }
        s.append("8");
    } else {
        proof { reveal_strlit("9"); }
        s.append("9");
    }
}

/// Appends the decimal rendering of `n`.
pub fn push_decimal(s: &mut String, n: u64)
    ensures
        final(s)@ == old(s)@ + decimal(n as nat),
    decreases n,
{
    if n >= 10 {
        push_decimal(s, n / 10);
    }
    push_digit(s, n % 10);
}

/// The decimal rendering of an unsigned number, as `to_string` gives it.
pub fn u64_to_string(n: u64) -> (r: String)
    ensures
        r@ == decimal(n as nat),
{
    let mut s = String::new();
    push_decimal(&mut s, n);
    s
}


/// The text of a sequence of lines, each followed by a line break.
pub open spec fn joined_lines(lines: Seq<Seq<char>>) -> Seq<char>
    decreases lines.len(),
{
    if lines.len() == 0 {
        Seq::empty()
    } else {
        joined_lines(lines.drop_last()) + lines.last().push('\n')
    }
}

/// `ToString::to_string` on a `char`; std documents that a `char` displays as
/// itself, so the string holds that one character.
#[verifier::external_body]
pub(crate) fn char_to_string(c: char) -> (r: String)
    ensures
        r@ == seq![c],
{
    c.to_string()
}

/// The decimal rendering of a signed number, as `to_string` gives it.
pub fn i32_to_string(i: i32) -> (r: String)
    ensures
        r@ == signed_decimal(i as int),
{
    if i < 0 {
        proof { reveal_strlit("-"); }
        let mut s = String::from_str("-");
        let magnitude: i64 = -(i as i64);
        push_decimal(&mut s, magnitude as u64);
        s
    } else {
        u64_to_string(i as u64)
    }
}

/// Copies a list of strings.
pub fn copy_strings(v: &Vec<String>) -> (r: Vec<String>)
    ensures
        r.deep_view() == v.deep_view(),
{
    let mut r: Vec<String> = Vec::new();
    let mut i: usize = 0;
    while i < v.len()
        invariant
            i <= v.len(),
            r.len() == i,
            forall|k: int| 0 <= k < i ==> (#[trigger] r@[k])@ == v@[k]@,
        decreases v.len() - i,
    {
        r.push(v[i].clone());
        i = i + 1;
    }
    assert(r.deep_view() =~= v.deep_view()) by {
        assert forall|k: int| 0 <= k < r.len() implies r.deep_view()[k] == v.deep_view()[k] by {
            assert(r.deep_view()[k] == r@[k]@);
            assert(v.deep_view()[k] == v@[k]@);
        }
    }
    r
}

/// Copies an optional string.
pub fn copy_opt(o: &Option<String>) -> (r: Option<String>)
    ensures
        r.deep_view() == o.deep_view(),
{
    match o {
        Some(s) => Some(s.clone()),
        None => None,
    }
}

/// Appends `n` spaces.
pub fn push_spaces(s: &mut String, n: usize)
    ensures
        final(s)@ == old(s)@ + spaces(n as nat),
{
    let ghost start = s@;
    let mut i: usize = 0;
    proof { reveal_strlit(" "); }
    while i < n
        invariant
            i <= n,
            s@ == start + spaces(i as nat),
            " "@ == seq![' '],
        decreases n - i,
    {
        s.append(" ");
        i = i + 1;
        assert(s@ =~= start + spaces(i as nat));
    }
}

/// Appends `text` right-aligned in a field of `width` characters.
pub fn push_padded(s: &mut String, text: &str, width: usize)
    ensures
        final(s)@ == old(s)@ + pad_left(text@, width as nat),
{
    let len = text.unicode_len();
    if len < width {
        push_spaces(s, width - len);
    }
    s.append(text);
}

/// Appends the lines, each followed by a line break.
pub fn join_lines(lines: &Vec<String>) -> (r: String)
    ensures
        r@ == joined_lines(lines.deep_view()),
{
    let mut r = String::new();
    let mut i: usize = 0;
    proof { reveal_strlit("\n"); }
    while i < lines.len()
        invariant
            i <= lines.len(),
            r@ == joined_lines(lines.deep_view().take(i as int)),
            "\n"@ == seq!['\n'],
        decreases lines.len() - i,
    {
        r.append(lines[i].as_str());
        r.append("\n");
        i = i + 1;
        assert(lines.deep_view().take(i as int).drop_last() =~= lines.deep_view().take(i - 1));
    }
    assert(lines.deep_view().take(i as int) =~= lines.deep_view());
    r
}

/// Whether two texts are equal.
pub fn same_text(a: &str, b: &str) -> (r: bool)
    ensures
        r == (a@ == b@),
{
    String::from_str(a) == String::from_str(b)
}

/// Whether `needle` occurs as a contiguous run in `hay`.
pub open spec fn contains_seq(hay: Seq<char>, needle: Seq<char>) -> bool {
    exists|i: int| 0 <= i && i + needle.len() <= hay.len() && #[trigger] hay.subrange(i, i + needle.len()) == needle
}

/// A text occurs in any text that has it between a prefix and a suffix.
pub proof fn lemma_contains_middle(p: Seq<char>, l: Seq<char>, s: Seq<char>)
    ensures
        contains_seq(p + l + s, l),
{
    let hay = p + l + s;
    assert(hay.subrange(p.len() as int, (p.len() + l.len()) as int) =~= l);
}

/// `needle` occurs in `hay` exactly when `hay` is `needle` with some text
/// before it and some after it.
pub proof fn law_contains_is_infix(hay: Seq<char>, needle: Seq<char>)
    ensures
        contains_seq(hay, needle) == exists|p: Seq<char>, s: Seq<char>| hay == #[trigger] (p + needle + s),
{
    if contains_seq(hay, needle) {
        let i = choose|i: int|
            0 <= i && i + needle.len() <= hay.len() && #[trigger] hay.subrange(i, i + needle.len()) == needle;
        let p = hay.take(i);
        let s = hay.skip(i + needle.len());
        assert(hay =~= p + needle + s);
    }
    if exists|p: Seq<char>, s: Seq<char>| hay == #[trigger] (p + needle + s) {
        let (p, s) = choose|p: Seq<char>, s: Seq<char>| hay == #[trigger] (p + needle + s);
        lemma_contains_middle(p, needle, s);
    }
}

/// A text that occurs in `x` occurs in `x` extended on either side.
pub proof fn lemma_contains_extend(x: Seq<char>, y: Seq<char>, l: Seq<char>)
    requires
        contains_seq(x, l),
    ensures
        contains_seq(x + y, l),
        contains_seq(y + x, l),
{
    let i = choose|i: int| 0 <= i && i + l.len() <= x.len() && #[trigger] x.subrange(i, i + l.len()) == l;
    assert((x + y).subrange(i, i + l.len()) =~= x.subrange(i, i + l.len()));
    assert((y + x).subrange(y.len() + i, y.len() + i + l.len()) =~= x.subrange(i, i + l.len()));
}

/// The first `n` texts of `parts`, concatenated.
pub open spec fn concat_first(parts: Seq<Seq<char>>, n: nat) -> Seq<char>
    decreases n,
{
    if n == 0 {
        Seq::empty()
    } else {
        concat_first(parts, (n - 1) as nat) + parts[n - 1]
    }
}

/// Each of the first `n` texts occurs in their concatenation.
pub proof fn lemma_part_contained(parts: Seq<Seq<char>>, n: nat, k: int)
    requires
        0 <= k < n <= parts.len(),
    ensures
        contains_seq(concat_first(parts, n), parts[k]),
    decreases n,
{
    if k == n - 1 {
        let e = Seq::<char>::empty();
        lemma_contains_middle(e, parts[k], e);
        assert(e + parts[k] + e =~= parts[k]);
        lemma_contains_extend(parts[k], concat_first(parts, (n - 1) as nat), parts[k]);
    } else {
        lemma_part_contained(parts, (n - 1) as nat, k);
        lemma_contains_extend(concat_first(parts, (n - 1) as nat), parts[n - 1], parts[k]);
    }
}

/// Each of eight texts occurs in their concatenation.
pub proof fn lemma_parts_contained(
    a0: Seq<char>,
    a1: Seq<char>,
    a2: Seq<char>,
    a3: Seq<char>,
    a4: Seq<char>,
    a5: Seq<char>,
    a6: Seq<char>,
    a7: Seq<char>,
)
    ensures
        contains_seq(a0 + a1 + a2 + a3 + a4 + a5 + a6 + a7, a0),
        contains_seq(a0 + a1 + a2 + a3 + a4 + a5 + a6 + a7, a1),
        contains_seq(a0 + a1 + a2 + a3 + a4 + a5 + a6 + a7, a2),
        contains_seq(a0 + a1 + a2 + a3 + a4 + a5 + a6 + a7, a3),
        contains_seq(a0 + a1 + a2 + a3 + a4 + a5 + a6 + a7, a4),
        contains_seq(a0 + a1 + a2 + a3 + a4 + a5 + a6 + a7, a5),
        contains_seq(a0 + a1 + a2 + a3 + a4 + a5 + a6 + a7, a6),
        contains_seq(a0 + a1 + a2 + a3 + a4 + a5 + a6 + a7, a7),
{
    let parts = seq![a0, a1, a2, a3, a4, a5, a6, a7];
    reveal_with_fuel(concat_first, 9);
    assert(concat_first(parts, 0) =~= Seq::<char>::empty());
    assert(concat_first(parts, 8) =~= a0 + a1 + a2 + a3 + a4 + a5 + a6 + a7);
    lemma_part_contained(parts, 8, 0);
    lemma_part_contained(parts, 8, 1);
    lemma_part_contained(parts, 8, 2);
    lemma_part_contained(parts, 8, 3);
    lemma_part_contained(parts, 8, 4);
    lemma_part_contained(parts, 8, 5);
    lemma_part_contained(parts, 8, 6);
    lemma_part_contained(parts, 8, 7);
}

/// A decimal rendering has at least one character, and its first one is a
/// digit, never a minus sign.
pub proof fn lemma_decimal_nonempty(n: nat)
    ensures
        decimal(n).len() >= 1,
        decimal(n)[0] != '-',
    decreases n,
{
    if n >= 10 {
        lemma_decimal_nonempty(n / 10);
        assert(decimal(n)[0] == decimal(n / 10)[0]);
    }
}

/// Two numbers have the same decimal rendering only when they are equal.
pub proof fn lemma_decimal_injective(a: nat, b: nat)
    ensures
        (decimal(a) == decimal(b)) == (a == b),
    decreases a,
{
    if decimal(a) == decimal(b) {
        if a < 10 && b < 10 {
            assert(decimal(a)[0] == digit_char(a));
            assert(decimal(b)[0] == digit_char(b));
        } else if a < 10 {
            lemma_decimal_nonempty(b / 10);
            assert(decimal(b).len() >= 2);
        } else if b < 10 {
            lemma_decimal_nonempty(a / 10);
            assert(decimal(a).len() >= 2);
        } else {
            assert(decimal(a).last() == digit_char(a % 10));
            assert(decimal(b).last() == digit_char(b % 10));
            assert(decimal(a).drop_last() =~= decimal(a / 10));
            assert(decimal(b).drop_last() =~= decimal(b / 10));
            lemma_decimal_injective(a / 10, b / 10);
        }
    }
}

/// Two integers have the same signed decimal rendering only when they are
/// equal.
pub proof fn lemma_signed_decimal_injective(a: int, b: int)
    ensures
        (signed_decimal(a) == signed_decimal(b)) == (a == b),
{
    if signed_decimal(a) == signed_decimal(b) {
        if a < 0 && b < 0 {
            assert(signed_decimal(a).drop_first() =~= decimal((-a) as nat));
            assert(signed_decimal(b).drop_first() =~= decimal((-b) as nat));
            lemma_decimal_injective((-a) as nat, (-b) as nat);
        } else if a < 0 {
            lemma_decimal_nonempty(b as nat);
            assert(signed_decimal(a)[0] == '-');
        } else if b < 0 {
            lemma_decimal_nonempty(a as nat);
            assert(signed_decimal(b)[0] == '-');
        } else {
            lemma_decimal_injective(a as nat, b as nat);
        }
    }
}

/// The characters of a text.
pub fn chars_of(s: &str) -> (r: Vec<char>)
    ensures
        r@ == s@,
{
    broadcast use vstd::string::group_string_axioms;

    let mut r: Vec<char> = Vec::new();
    for c in iter: s.chars()
        invariant
            iter.seq() == s@,
            r@ == s@.take(iter.index()),
    {
        r.push(c);
        assert(s@.take(iter.index() + 1) =~= s@.take(iter.index()).push(c));
    }
    assert(s@.take(s@.len() as int) =~= s@);
    r
}

/// Whether `needle` occurs in `hay` starting at `start`.
fn occurs_at(hay: &Vec<char>, needle: &Vec<char>, start: usize) -> (r: bool)
    requires
        start + needle.len() <= hay.len(),
    ensures
        r == (hay@.subrange(start as int, start + needle.len()) == needle@),
{
    let mut k: usize = 0;
    while k < needle.len()
        invariant
            start + needle.len() <= hay.len(),
            k <= needle.len(),
            forall|m: int| 0 <= m < k ==> hay@[start + m] == needle@[m],
        decreases needle.len() - k,
    {
        if hay[start + k] != needle[k] {
            assert(hay@.subrange(start as int, start + needle.len())[k as int] != needle@[k as int]);
            return false;
        }
        k = k + 1;
    }
    assert(hay@.subrange(start as int, start + needle.len()) =~= needle@);
    true
}

/// Whether the text `needle` occurs in the characters `hay`.
pub fn contains_text(hay: &Vec<char>, needle: &str) -> (r: bool)
    ensures
        r == contains_seq(hay@, needle@),
{
    let pat = chars_of(needle);
    if pat.len() > hay.len() {
        return false;
    }
    let last = hay.len() - pat.len();
    let mut i: usize = 0;
    loop
        invariant
            pat@ == needle@,
            last == hay.len() - pat.len(),
            i <= last,
            forall|j: int| 0 <= j < i ==> #[trigger] hay@.subrange(j, j + pat@.len()) != pat@,
        decreases last - i,
    {
        if occurs_at(hay, &pat, i) {
            assert(hay@.subrange(i as int, i + pat@.len()) == needle@);
            return true;
        }
        if i == last {
            return false;
        }
        i = i + 1;
    }
}

} // verus!
