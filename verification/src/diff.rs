//! Line-by-line comparison of two texts and its rendering: a header for each
//! side, then one numbered line per entry of the diff.
use vstd::prelude::*;
use crate::text::{
    char_to_string, decimal, same_text, join_lines, joined_lines, pad_left, push_padded, push_spaces, spaces,
    u64_to_string,
};

verus! {

/// Which input a line of a diff comes from.
#[derive(Clone, Copy, Debug, PartialEq, Eq, Structural)]
pub enum LineSide {
    /// Only in the left (expected) input.
    Left,
    /// In both inputs.
    Both,
    /// Only in the right (actual) input.
    Right,
}

/// One entry of a line diff.
#[derive(Debug)]
pub struct DiffLine {
    pub side: LineSide,
    pub text: String,
}

impl View for DiffLine {
    type V = (LineSide, Seq<char>);

    open spec fn view(&self) -> (LineSide, Seq<char>) {
        (self.side, self.text@)
    }
}

/// The entries of a diff, each by its view.
pub open spec fn entries_view(v: Seq<DiffLine>) -> Seq<(LineSide, Seq<char>)> {
    v.map_values(|d: DiffLine| d@)
}

// ----- how a text splits into lines -----

/// The runs of a text between line feeds; there is always one more run than line feeds.
pub open spec fn newline_segments(s: Seq<char>) -> Seq<Seq<char>>
    decreases s.len(),
{
    if s.len() == 0 {
        seq![Seq::empty()]
    } else {
        let p = newline_segments(s.drop_last());
        if s.last() == '\n' {
            p.push(Seq::empty())
        } else {
            p.update(p.len() - 1, p.last().push(s.last()))
        }
    }
}

/// A line without the carriage return of a `\r\n` ending.
pub open spec fn strip_cr(l: Seq<char>) -> Seq<char> {
    if l.len() > 0 && l.last() == '\r' {
        l.drop_last()
    } else {
        l
    }
}

/// The lines of a text as `str::lines` yields them: split at `\n` or `\r\n`,
/// terminators dropped, and no empty line after a final line ending.
pub open spec fn str_lines(s: Seq<char>) -> Seq<Seq<char>> {
    let segs = newline_segments(s);
    let body = segs.drop_last().map_values(|l: Seq<char>| strip_cr(l));
    if segs.last().len() == 0 {
        body
    } else {
        body.push(segs.last())
    }
}

proof fn lemma_segments_nonempty(s: Seq<char>)
    ensures
        newline_segments(s).len() >= 1,
    decreases s.len(),
{
    if s.len() > 0 {
        lemma_segments_nonempty(s.drop_last());
    }
}

proof fn lemma_chars_fit_bytes(s: Seq<char>)
    ensures
        s.len() <= vstd::utf8::encode_utf8(s).len(),
    decreases s.len(),
{
    if s.len() > 0 {
        lemma_chars_fit_bytes(s.drop_first());
    }
}

/// The number of lines of a text, as `str::lines` counts them.
pub fn count_lines(s: &str) -> (n: usize)
    ensures
        n == str_lines(s@).len(),
{
    broadcast use vstd::string::group_string_axioms;

    let byte_len = s.as_bytes().len();
    proof { lemma_chars_fit_bytes(s@); }
    let ghost all = s@;
    let mut nl: usize = 0;
    let mut last_empty: bool = true;
    let mut i: usize = 0;
    assert(all.take(0) =~= Seq::<char>::empty());
    for c in iter: s.chars()
        invariant
            all == s@,
            all.len() <= byte_len,
            iter.seq() == all,
            i == iter.index(),
            i <= all.len(),
            nl + 1 == newline_segments(all.take(i as int)).len(),
            last_empty == (newline_segments(all.take(i as int)).last().len() == 0),
            nl <= i,
            !last_empty ==> nl < i,
    {
        let ghost prefix = all.take(i as int);
        proof {
            lemma_segments_nonempty(prefix);
            assert(all.take(i + 1).drop_last() =~= prefix);
            assert(all.take(i + 1).last() == c);
        }
        if c == '\n' {
            nl = nl + 1;
            last_empty = true;
        } else {
            last_empty = false;
        }
        i = i + 1;
    }
    proof {
        assert(all.take(i as int) =~= all);
        lemma_segments_nonempty(all);
    }
    if last_empty {
        nl
    } else {
        nl + 1
    }
}

/// The lines that a diff compares: those of `str_lines`, and one empty line more
/// when the text ends with a line feed.
pub open spec fn diff_input_lines(s: Seq<char>) -> Seq<Seq<char>> {
    if s.len() > 0 && s.last() == '\n' {
        str_lines(s).push(Seq::empty())
    } else {
        str_lines(s)
    }
}

/// The lines of the left input that a diff holds, in order.
pub open spec fn left_side(d: Seq<(LineSide, Seq<char>)>) -> Seq<Seq<char>>
    decreases d.len(),
{
    if d.len() == 0 {
        Seq::empty()
    } else if d.last().0 == LineSide::Right {
        left_side(d.drop_last())
    } else {
        left_side(d.drop_last()).push(d.last().1)
    }
}

/// The lines of the right input that a diff holds, in order.
pub open spec fn right_side(d: Seq<(LineSide, Seq<char>)>) -> Seq<Seq<char>>
    decreases d.len(),
{
    if d.len() == 0 {
        Seq::empty()
    } else if d.last().0 == LineSide::Left {
        right_side(d.drop_last())
    } else {
        right_side(d.drop_last()).push(d.last().1)
    }
}

/// What `diff::lines` returns for two texts, each entry by its side and its text.
pub uninterp spec fn line_diff_entries(left: Seq<char>, right: Seq<char>) -> Seq<(LineSide, Seq<char>)>;

/// `diff::lines` (crate `diff`), each `diff::Result` mapped to a `DiffLine`; a
/// `Both` entry keeps its left text. Claimed of it, as its source shows: the
/// entries are those named by `line_diff_entries`; read on the left they give
/// the lines of `left`, read on the right those of `right` (a `Both` entry only
/// pairs equal lines). Which alignment it picks between differing inputs is
/// left to the name.
#[verifier::external_body]
pub(crate) fn diff_lines(left: &str, right: &str) -> (r: Vec<DiffLine>)
    ensures
        entries_view(r@) == line_diff_entries(left@, right@),
        left_side(entries_view(r@)) == diff_input_lines(left@),
        right_side(entries_view(r@)) == diff_input_lines(right@),
{
    diff::lines(left, right).into_iter().map(|r| match r {
        diff::Result::Left(l) => DiffLine { side: LineSide::Left, text: l.to_string() },
        diff::Result::Both(l, _) => DiffLine { side: LineSide::Both, text: l.to_string() },
        diff::Result::Right(r) => DiffLine { side: LineSide::Right, text: r.to_string() },
    }).collect()
}

// ----- rendering -----

/// The separator that marks the side of an entry.
pub open spec fn sep_char(side: LineSide) -> char {
    match side {
        LineSide::Left => '-',
        LineSide::Both => '|',
        LineSide::Right => '+',
    }
}

/// A line number right-aligned in its column, or a blank column.
pub open spec fn number_field(n: Option<nat>, width: nat) -> Seq<char> {
    match n {
        Some(k) => pad_left(decimal(k), width),
        None => spaces(width),
    }
}

/// The rendering of entry `i`: the left and right line numbers (counted over the
/// entries up to it), the side marker and the text.
pub open spec fn entry_line(e: Seq<(LineSide, Seq<char>)>, i: int, indent: Seq<char>, width: nat) -> Seq<char> {
    let side = e[i].0;
    let upto = e.take(i + 1);
    let a = if side == LineSide::Right { None } else { Some(left_side(upto).len()) };
    let b = if side == LineSide::Left { None } else { Some(right_side(upto).len()) };
    indent + number_field(a, width) + indent + number_field(b, width) + seq![' ', sep_char(side), ' ']
        + e[i].1
}

/// The renderings of all entries.
pub open spec fn entry_lines(e: Seq<(LineSide, Seq<char>)>, indent: Seq<char>, width: nat) -> Seq<Seq<char>> {
    Seq::new(e.len(), |i: int| entry_line(e, i, indent, width))
}

/// The width of the widest line number up to `max`.
pub open spec fn number_width(max: nat) -> nat {
    decimal(max).len()
}

proof fn lemma_decimal_nonempty(n: nat)
    ensures
        decimal(n).len() >= 1,
    decreases n,
{
    if n >= 10 {
        lemma_decimal_nonempty(n / 10);
    }
}

/// The width of the widest line number up to `max`.
pub fn number_column_width(max: usize) -> (w: usize)
    ensures
        w == number_width(max as nat),
        w >= 1,
{
    proof { lemma_decimal_nonempty(max as nat); }
    u64_to_string(max as u64).unicode_len()
}

fn push_number_field(s: &mut String, n: Option<usize>, width: usize)
    ensures
        final(s)@ == old(s)@ + number_field(
            match n {
                Some(k) => Some(k as nat),
                None => None,
            },
            width as nat,
        ),
{
    match n {
        Some(k) => {
            let d = u64_to_string(k as u64);
            push_padded(s, d.as_str(), width);
        },
        None => {
            push_spaces(s, width);
        },
    }
}

proof fn lemma_sides_step(e: Seq<(LineSide, Seq<char>)>, i: int)
    requires
        0 <= i < e.len(),
    ensures
        left_side(e.take(i + 1)) == (if e[i].0 == LineSide::Right {
            left_side(e.take(i))
        } else {
            left_side(e.take(i)).push(e[i].1)
        }),
        right_side(e.take(i + 1)) == (if e[i].0 == LineSide::Left {
            right_side(e.take(i))
        } else {
            right_side(e.take(i)).push(e[i].1)
        }),
{
    assert(e.take(i + 1).drop_last() =~= e.take(i));
    assert(e.take(i + 1).last() == e[i]);
}

proof fn lemma_sides_len(e: Seq<(LineSide, Seq<char>)>)
    ensures
        left_side(e).len() <= e.len(),
        right_side(e).len() <= e.len(),
    decreases e.len(),
{
    if e.len() > 0 {
        lemma_sides_len(e.drop_last());
    }
}

proof fn lemma_left_side_prefix(e: Seq<(LineSide, Seq<char>)>, k: int)
    requires
        0 <= k <= e.len(),
    ensures
        left_side(e.take(k)).len() <= left_side(e).len(),
        left_side(e).take(left_side(e.take(k)).len() as int) == left_side(e.take(k)),
    decreases e.len() - k,
{
    if k == e.len() {
        assert(e.take(k) =~= e);
        assert(left_side(e).take(left_side(e).len() as int) =~= left_side(e));
    } else {
        lemma_left_side_prefix(e, k + 1);
        lemma_sides_step(e, k);
        let a = left_side(e.take(k));
        let b = left_side(e.take(k + 1));
        assert(left_side(e).take(a.len() as int) =~= left_side(e).take(b.len() as int).take(a.len() as int));
        assert(b.take(a.len() as int) =~= a);
    }
}

proof fn lemma_right_side_prefix(e: Seq<(LineSide, Seq<char>)>, k: int)
    requires
        0 <= k <= e.len(),
    ensures
        right_side(e.take(k)).len() <= right_side(e).len(),
        right_side(e).take(right_side(e.take(k)).len() as int) == right_side(e.take(k)),
    decreases e.len() - k,
{
    if k == e.len() {
        assert(e.take(k) =~= e);
        assert(right_side(e).take(right_side(e).len() as int) =~= right_side(e));
    } else {
        lemma_right_side_prefix(e, k + 1);
        lemma_sides_step(e, k);
        let a = right_side(e.take(k));
        let b = right_side(e.take(k + 1));
        assert(right_side(e).take(a.len() as int) =~= right_side(e).take(b.len() as int).take(a.len() as int));
        assert(b.take(a.len() as int) =~= a);
    }
}

/// The line numbers that a rendered diff shows point into the lines of each
/// input: an entry shown with left number `k` holds line `k` of the left side
/// of the diff, and likewise on the right.
pub proof fn law_line_numbers_index_input_lines(e: Seq<(LineSide, Seq<char>)>, i: int)
    requires
        0 <= i < e.len(),
    ensures
        e[i].0 != LineSide::Right ==> {
            let k = left_side(e.take(i + 1)).len();
            &&& 1 <= k <= left_side(e).len()
            &&& left_side(e)[k - 1] == e[i].1
        },
        e[i].0 != LineSide::Left ==> {
            let k = right_side(e.take(i + 1)).len();
            &&& 1 <= k <= right_side(e).len()
            &&& right_side(e)[k - 1] == e[i].1
        },
{
    lemma_sides_step(e, i);
    lemma_left_side_prefix(e, i + 1);
    lemma_right_side_prefix(e, i + 1);
    if e[i].0 != LineSide::Right {
        let k = left_side(e.take(i + 1)).len();
        assert(left_side(e).take(k as int)[k - 1] == left_side(e)[k - 1]);
    }
    if e[i].0 != LineSide::Left {
        let k = right_side(e.take(i + 1)).len();
        assert(right_side(e).take(k as int)[k - 1] == right_side(e)[k - 1]);
    }
}

/// Renders each entry of a diff: the left and right line numbers right-aligned
/// in columns of `width`, each column preceded by `indent`, then the side marker
/// (`-`, `|` or `+`) and the line.
pub fn render_entries(entries: &Vec<DiffLine>, indent: &str, width: usize) -> (r: Vec<String>)
    ensures
        r.deep_view() == entry_lines(entries_view(entries@), indent@, width as nat),
{
    let ghost e = entries_view(entries@);
    let mut r: Vec<String> = Vec::new();
    let mut la: usize = 0;
    let mut lb: usize = 0;
    let mut i: usize = 0;
    proof {
        reveal_strlit(" - ");
        reveal_strlit(" | ");
        reveal_strlit(" + ");
    }
    while i < entries.len()
        invariant
            e == entries_view(entries@),
            i <= entries.len(),
            r.len() == i,
            la == left_side(e.take(i as int)).len(),
            lb == right_side(e.take(i as int)).len(),
            la <= i,
            lb <= i,
            forall|j: int| 0 <= j < i ==> (#[trigger] r@[j])@ == entry_line(e, j, indent@, width as nat),
            " - "@ == seq![' ', '-', ' '],
            " | "@ == seq![' ', '|', ' '],
            " + "@ == seq![' ', '+', ' '],
        decreases entries.len() - i,
    {
        let side = entries[i].side;
        proof {
            lemma_sides_step(e, i as int);
            lemma_sides_len(e.take(i as int));
        }
        let a = if side == LineSide::Right {
            None
        } else {
            la = la + 1;
            Some(la)
        };
        let b = if side == LineSide::Left {
            None
        } else {
            lb = lb + 1;
            Some(lb)
        };
        let mut line = String::new();
        line.append(indent);
        push_number_field(&mut line, a, width);
        line.append(indent);
        push_number_field(&mut line, b, width);
        match side {
            LineSide::Left => line.append(" - "),
            LineSide::Both => line.append(" | "),
            LineSide::Right => line.append(" + "),
        }
        line.append(entries[i].text.as_str());
        assert(line@ == entry_line(e, i as int, indent@, width as nat));
        r.push(line);
        i = i + 1;
    }
    assert(r.deep_view() =~= entry_lines(e, indent@, width as nat)) by {
        assert forall|j: int| 0 <= j < r.len() implies r.deep_view()[j] == entry_lines(
            e,
            indent@,
            width as nat,
        )[j] by {
            assert(r.deep_view()[j] == r@[j]@);
        }
    }
    r
}


// ----- settings -----

/// The colours a terminal can show a diff line in.
#[derive(Clone, Copy, Debug, PartialEq, Eq, Structural)]
pub enum DiffColor {
    Black,
    Red,
    Green,
    Yellow,
    Blue,
    Magenta,
    Cyan,
    White,
    BrightBlack,
    BrightRed,
    BrightGreen,
    BrightYellow,
    BrightBlue,
    BrightMagenta,
    BrightCyan,
    BrightWhite,
    AnsiColor(u8),
    TrueColor { r: u8, g: u8, b: u8 },
}

/// The marker repeated before the name of the left input.
pub const DEFAULT_LEFT_MARKER: char = '-';

/// The marker repeated before the name of the right input.
pub const DEFAULT_RIGHT_MARKER: char = '+';

/// How many markers open a header.
pub const DEFAULT_MARKER_COUNT: usize = 4;

/// The spaces before each line-number column.
pub const DEFAULT_INDENT_SPACES: usize = 2;

/// The colour of the left header and of removed lines.
pub open spec fn default_left_color() -> DiffColor {
    DiffColor::Green
}

/// The colour of the right header and of added lines.
pub open spec fn default_right_color() -> DiffColor {
    DiffColor::Red
}

/// How a diff is shown: names and markers of the headers, layout of the line
/// numbers and colours.
#[derive(Debug)]
pub struct DiffSettings {
    pub left_name: Option<String>,
    pub right_name: Option<String>,
    pub left_marker: char,
    pub right_marker: char,
    pub marker_count: usize,
    pub indent_spaces: usize,
    pub force_color: bool,
    pub left_color: Option<DiffColor>,
    pub right_color: Option<DiffColor>,
    pub no_color: bool,
    /// The largest line number that the diff is expected to show; line numbers
    /// are right-aligned to its width.
    pub max_line_number: usize,
}

impl DiffSettings {
    /// The settings hold the default values.
    pub open spec fn is_default(&self) -> bool {
        &&& self.left_name is None
        &&& self.right_name is None
        &&& self.left_marker == DEFAULT_LEFT_MARKER
        &&& self.right_marker == DEFAULT_RIGHT_MARKER
        &&& self.marker_count == DEFAULT_MARKER_COUNT
        &&& self.indent_spaces == DEFAULT_INDENT_SPACES
        &&& !self.force_color
        &&& self.left_color == Some(default_left_color())
        &&& self.right_color == Some(default_right_color())
        &&& !self.no_color
        &&& self.max_line_number == 0
    }

    /// The colour used for the left side.
    pub open spec fn spec_left_color(&self) -> DiffColor {
        match self.left_color {
            Some(c) => c,
            None => default_left_color(),
        }
    }

    /// The colour used for the right side.
    pub open spec fn spec_right_color(&self) -> DiffColor {
        match self.right_color {
            Some(c) => c,
            None => default_right_color(),
        }
    }

    /// The default settings.
    pub fn new() -> (r: Self)
        ensures
            r.is_default(),
    {
        Self::default()
    }

    /// Names the two inputs in the headers.
    pub fn names(self, left: String, right: String) -> (r: Self)
        ensures
            r.left_name == Some(left),
            r.right_name == Some(right),
            r.left_marker == self.left_marker,
            r.right_marker == self.right_marker,
            r.marker_count == self.marker_count,
            r.indent_spaces == self.indent_spaces,
            r.force_color == self.force_color,
            r.left_color == self.left_color,
            r.right_color == self.right_color,
            r.no_color == self.no_color,
            r.max_line_number == self.max_line_number,
    {
        let mut r = self;
        r.left_name = Some(left);
        r.right_name = Some(right);
        r
    }

    /// Sets the largest line number to align the line-number columns for.
    pub fn max_line_number(self, max: usize) -> (r: Self)
        ensures
            r.max_line_number == max,
            r.left_name == self.left_name,
            r.right_name == self.right_name,
            r.left_marker == self.left_marker,
            r.right_marker == self.right_marker,
            r.marker_count == self.marker_count,
            r.indent_spaces == self.indent_spaces,
            r.force_color == self.force_color,
            r.left_color == self.left_color,
            r.right_color == self.right_color,
            r.no_color == self.no_color,
    {
        let mut r = self;
        r.max_line_number = max;
        r
    }

    /// The colour used for the left side: the one set, else green.
    pub fn resolved_left_color(&self) -> (c: DiffColor)
        ensures
            c == self.spec_left_color(),
    {
        match self.left_color {
            Some(c) => c,
            None => DiffColor::Green,
        }
    }

    /// The colour used for the right side: the one set, else red.
    pub fn resolved_right_color(&self) -> (c: DiffColor)
        ensures
            c == self.spec_right_color(),
    {
        match self.right_color {
            Some(c) => c,
            None => DiffColor::Red,
        }
    }
}

impl Default for DiffSettings {
    fn default() -> (r: Self)
        ensures
            r.is_default(),
    {
        DiffSettings {
            left_name: None,
            right_name: None,
            left_marker: DEFAULT_LEFT_MARKER,
            right_marker: DEFAULT_RIGHT_MARKER,
            marker_count: DEFAULT_MARKER_COUNT,
            indent_spaces: DEFAULT_INDENT_SPACES,
            force_color: false,
            left_color: Some(DiffColor::Green),
            right_color: Some(DiffColor::Red),
            no_color: false,
            max_line_number: 0,
        }
    }
}

// ----- headers -----

/// The two inputs of a diff.
#[derive(Clone, Copy, Debug, PartialEq, Eq, Structural)]
pub enum Side {
    Left,
    Right,
}

/// How a side is called.
pub open spec fn side_word(side: Side) -> Seq<char> {
    match side {
        Side::Left => seq!['l', 'e', 'f', 't'],
        Side::Right => seq!['r', 'i', 'g', 'h', 't'],
    }
}

/// The label before a name: the side's word and a colon, padded so that the
/// names of both headers line up.
pub open spec fn side_label(side: Side) -> Seq<char> {
    match side {
        Side::Left => seq!['l', 'e', 'f', 't', ':', ' '],
        Side::Right => seq!['r', 'i', 'g', 'h', 't', ':'],
    }
}

/// A header line: `marker_len` markers, then the side and, when given, its name.
pub open spec fn header_text(side: Side, name: Option<Seq<char>>, marker: char, marker_len: nat) -> Seq<char> {
    let bar = Seq::new(marker_len, |i: int| marker);
    match name {
        Some(n) => bar + seq![' '] + side_label(side) + seq![' '] + n,
        None => bar + seq![' '] + side_word(side),
    }
}

impl Side {
    /// How the side is called: `left` or `right`.
    pub fn label(&self) -> (r: String)
        ensures
            r@ == side_word(*self),
    {
        match self {
            Side::Left => {
                proof { reveal_strlit("left"); }
                String::from_str("left")
            },
            Side::Right => {
                proof { reveal_strlit("right"); }
                String::from_str("right")
            },
        }
    }
}

/// A header line for one side of a diff: the marker `marker_len` times, then
/// the side, and the name of the input when there is one.
pub fn header(side: Side, name: Option<&String>, marker: char, marker_len: usize) -> (r: String)
    ensures
        r@ == header_text(
            side,
            match name {
                Some(n) => Some(n@),
                None => None,
            },
            marker,
            marker_len as nat,
        ),
{
    let m = char_to_string(marker);
    let mut r = String::new();
    let mut i: usize = 0;
    while i < marker_len
        invariant
            i <= marker_len,
            m@ == seq![marker],
            r@ == Seq::new(i as nat, |k: int| marker),
        decreases marker_len - i,
    {
        r.append(m.as_str());
        i = i + 1;
        assert(r@ =~= Seq::new(i as nat, |k: int| marker));
    }
    proof {
        reveal_strlit(" ");
        reveal_strlit("left: ");
        reveal_strlit("right:");
    }
    r.append(" ");
    match name {
        Some(n) => {
            match side {
                Side::Left => r.append("left: "),
                Side::Right => r.append("right:"),
            }
            r.append(" ");
            r.append(n.as_str());
        },
        None => {
            let w = side.label();
            r.append(w.as_str());
        },
    }
    r
}

// ----- whole diffs -----

/// The result of comparing two texts: the same, or a rendered difference.
#[derive(Debug)]
pub enum Diff {
    Same,
    Diff(String),
}

impl Diff {
    /// The text shown for the comparison: nothing when the inputs are the same.
    pub fn render(&self) -> (r: String)
        ensures
            r@ == match self {
                Diff::Same => Seq::<char>::empty(),
                Diff::Diff(t) => t@,
            },
    {
        match self {
            Diff::Same => String::new(),
            Diff::Diff(t) => t.clone(),
        }
    }
}

/// The lines shown for a diff with these entries: the two headers, then each
/// entry with its line numbers.
pub open spec fn rendered_diff_with(
    e: Seq<(LineSide, Seq<char>)>,
    left_name: Option<Seq<char>>,
    right_name: Option<Seq<char>>,
    left_marker: char,
    right_marker: char,
    marker_count: nat,
    indent_spaces: nat,
    max_line_number: nat,
) -> Seq<Seq<char>> {
    seq![
        header_text(Side::Left, left_name, left_marker, marker_count),
        header_text(Side::Right, right_name, right_marker, marker_count),
    ] + entry_lines(e, spaces(indent_spaces), number_width(max_line_number))
}

/// The lines shown for a diff with these entries under these settings.
pub open spec fn rendered_diff(e: Seq<(LineSide, Seq<char>)>, settings: DiffSettings) -> Seq<Seq<char>> {
    rendered_diff_with(
        e,
        settings.left_name.deep_view(),
        settings.right_name.deep_view(),
        settings.left_marker,
        settings.right_marker,
        settings.marker_count as nat,
        settings.indent_spaces as nat,
        settings.max_line_number as nat,
    )
}

/// Renders a computed diff: a header for each side, then one line per entry.
pub fn render_line_diff(entries: &Vec<DiffLine>, settings: &DiffSettings) -> (r: Vec<String>)
    ensures
        r.deep_view() == rendered_diff(entries_view(entries@), *settings),
{
    let mut r: Vec<String> = Vec::new();
    r.push(header(Side::Left, settings.left_name.as_ref(), settings.left_marker, settings.marker_count));
    r.push(header(Side::Right, settings.right_name.as_ref(), settings.right_marker, settings.marker_count));
    let mut indent = String::new();
    push_spaces(&mut indent, settings.indent_spaces);
    let width = number_column_width(settings.max_line_number);
    let body = render_entries(entries, indent.as_str(), width);
    let ghost before = r.deep_view();
    let ghost bv = body.deep_view();
    let mut i: usize = 0;
    while i < body.len()
        invariant
            i <= body.len(),
            r.len() == 2 + i,
            before.len() == 2,
            bv == body.deep_view(),
            forall|k: int| 0 <= k < 2 ==> (#[trigger] r@[k])@ == before[k],
            forall|k: int| 0 <= k < i ==> (#[trigger] r@[k + 2])@ == bv[k],
        decreases body.len() - i,
    {
        let line = body[i].clone();
        r.push(line);
        assert(r@[i + 2]@ == bv[i as int]);
        i = i + 1;
    }
    assert(r.deep_view() =~= rendered_diff(entries_view(entries@), *settings)) by {
        assert forall|k: int| 0 <= k < r.len() implies r.deep_view()[k] == (before + bv)[k] by {
            assert(r.deep_view()[k] == r@[k]@);
            if k >= 2 {
                assert(r@[(k - 2) + 2]@ == bv[k - 2]);
            }
        }
        assert(r.deep_view() =~= before + bv);
    }
    r
}

/// Compares two texts line by line. The result is `Same` exactly when the
/// texts are equal; otherwise it holds the rendered diff: the two headers and
/// every entry with its line numbers, each line ended by a line feed. The
/// entries, read on each side, are the lines of that side's text.
pub fn line_diff(left: &str, right: &str, settings: &DiffSettings) -> (d: Diff)
    ensures
        (d is Same) == (left@ == right@),
        d matches Diff::Diff(t) ==> t@ == joined_lines(rendered_diff(line_diff_entries(left@, right@), *settings)),
        d is Diff ==> left_side(line_diff_entries(left@, right@)) == diff_input_lines(left@),
        d is Diff ==> right_side(line_diff_entries(left@, right@)) == diff_input_lines(right@),
{
    if same_text(left, right) {
        return Diff::Same;
    }
    let entries = diff_lines(left, right);
    let lines = render_line_diff(&entries, settings);
    Diff::Diff(join_lines(&lines))
}

/// How a line of a diff is shown on a terminal.
#[derive(Clone, Copy, Debug, PartialEq, Eq, Structural)]
pub enum LineStyle {
    Colored(DiffColor),
    Dimmed,
}

/// A line of a diff with the way it is shown.
#[derive(Debug)]
pub struct StyledLine {
    pub text: String,
    pub style: LineStyle,
}

/// Removed lines take the left colour, added lines the right one, and common
/// lines are dimmed.
pub open spec fn entry_style(side: LineSide, settings: DiffSettings) -> LineStyle {
    match side {
        LineSide::Left => LineStyle::Colored(settings.spec_left_color()),
        LineSide::Right => LineStyle::Colored(settings.spec_right_color()),
        LineSide::Both => LineStyle::Dimmed,
    }
}

/// Compares two texts line by line for display on a terminal. `None` exactly
/// when the texts are equal; otherwise the lines of the rendered diff, the
/// headers in the colours of their sides and each entry styled by its side.
pub fn styled_line_diff(left: &str, right: &str, settings: &DiffSettings) -> (r: Option<Vec<StyledLine>>)
    ensures
        (r is None) == (left@ == right@),
        r matches Some(v) ==> {
            let e = line_diff_entries(left@, right@);
            let texts = rendered_diff(e, *settings);
            &&& v.len() == texts.len()
            &&& forall|i: int| 0 <= i < v.len() ==> (#[trigger] v@[i]).text@ == texts[i]
            &&& v@[0].style == LineStyle::Colored(settings.spec_left_color())
            &&& v@[1].style == LineStyle::Colored(settings.spec_right_color())
            &&& forall|i: int| 2 <= i < v.len() ==> (#[trigger] v@[i]).style == entry_style(e[i - 2].0, *settings)
            &&& left_side(e) == diff_input_lines(left@)
            &&& right_side(e) == diff_input_lines(right@)
        },
{
    if same_text(left, right) {
        return None;
    }
    let entries = diff_lines(left, right);
    let ghost e = entries_view(entries@);
    let texts = render_line_diff(&entries, settings);
    let ghost tv = texts.deep_view();
    assert(tv.len() == entries.len() + 2);
    let left_color = settings.resolved_left_color();
    let right_color = settings.resolved_right_color();
    let mut v: Vec<StyledLine> = Vec::new();
    let mut i: usize = 0;
    while i < texts.len()
        invariant
            i <= texts.len(),
            tv == texts.deep_view(),
            tv.len() == entries.len() + 2,
            e == entries_view(entries@),
            left_color == settings.spec_left_color(),
            right_color == settings.spec_right_color(),
            v.len() == i,
            forall|k: int| 0 <= k < i ==> (#[trigger] v@[k]).text@ == tv[k],
            i > 0 ==> v@[0].style == LineStyle::Colored(settings.spec_left_color()),
            i > 1 ==> v@[1].style == LineStyle::Colored(settings.spec_right_color()),
            forall|k: int| 2 <= k < i ==> (#[trigger] v@[k]).style == entry_style(e[k - 2].0, *settings),
        decreases texts.len() - i,
    {
        let style = if i == 0 {
            LineStyle::Colored(left_color)
        } else if i == 1 {
            LineStyle::Colored(right_color)
        } else {
            match entries[i - 2].side {
                LineSide::Left => LineStyle::Colored(left_color),
                LineSide::Right => LineStyle::Colored(right_color),
                LineSide::Both => LineStyle::Dimmed,
            }
        };
        let text = texts[i].clone();
        assert(text@ == tv[i as int]);
        v.push(StyledLine { text, style });
        i = i + 1;
    }
    Some(v)
}

} // verus!
