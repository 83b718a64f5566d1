//! The diagram parser: multi-line text with a fixed character vocabulary is
//! turned into a rectangular table of cells, one motion directive per cell.

use vstd::prelude::*;

verus! {

/// The motion behaviour of one grid cell, derived from one character.
///
/// Besides "no motion" (blank) and "stationary" (center) there are four
/// straight sweeps and eight corner turns, one per entry/exit edge pair.
#[derive(Copy, Clone, PartialEq, Eq, Structural, Debug)]
pub enum MoveType {
    Blank,
    Center,
    Left,
    BottomToLeft,
    TopToLeft,
    Right,
    BottomToRight,
    TopToRight,
    Up,
    LeftToTop,
    RightToTop,
    Down,
    LeftToBottom,
    RightToBottom,
}

/// The fixed character-to-directive table. Thin box-drawing corners run
/// clockwise, thick ones counter-clockwise. `None` marks a character outside
/// the diagram vocabulary.
pub open spec fn char_directive(c: char) -> Option<MoveType> {
    match c {
        ' ' => Some(MoveType::Blank),
        '0' => Some(MoveType::Center),
        '\u{2190}' => Some(MoveType::Left),           // ←
        '\u{2513}' => Some(MoveType::BottomToLeft),   // ┓
        '\u{2518}' => Some(MoveType::TopToLeft),      // ┘
        '\u{2192}' => Some(MoveType::Right),          // →
        '\u{250c}' => Some(MoveType::BottomToRight),  // ┌
        '\u{2517}' => Some(MoveType::TopToRight),     // ┗
        '\u{2191}' => Some(MoveType::Up),             // ↑
        '\u{251b}' => Some(MoveType::LeftToTop),      // ┛
        '\u{2514}' => Some(MoveType::RightToTop),     // └
        '\u{2193}' => Some(MoveType::Down),           // ↓
        '\u{2510}' => Some(MoveType::LeftToBottom),   // ┐
        '\u{250f}' => Some(MoveType::RightToBottom),  // ┏
        _ => None,
    }
}

/// A character belongs to the diagram vocabulary.
pub open spec fn is_cell_char(c: char) -> bool {
    char_directive(c) is Some
}

/// The directive of a character, with blank standing in for characters
/// outside the vocabulary (which a well-formed table never stores).
pub open spec fn directive_total(c: char) -> MoveType {
    match char_directive(c) {
        Some(m) => m,
        None => MoveType::Blank,
    }
}

/// Converts one diagram character to its motion directive.
pub fn move_type_from_char(c: char) -> (r: MoveType)
    requires
        is_cell_char(c),
    ensures
        char_directive(c) == Some(r),
        r == directive_total(c),
{
    match c {
        ' ' => MoveType::Blank,
        '0' => MoveType::Center,
        '\u{2190}' => MoveType::Left,
        '\u{2513}' => MoveType::BottomToLeft,
        '\u{2518}' => MoveType::TopToLeft,
        '\u{2192}' => MoveType::Right,
        '\u{250c}' => MoveType::BottomToRight,
        '\u{2517}' => MoveType::TopToRight,
        '\u{2191}' => MoveType::Up,
        '\u{251b}' => MoveType::LeftToTop,
        '\u{2514}' => MoveType::RightToTop,
        '\u{2193}' => MoveType::Down,
        '\u{2510}' => MoveType::LeftToBottom,
        '\u{250f}' => MoveType::RightToBottom,
        _ => MoveType::Blank,
    }
}

/// Decides membership in the diagram vocabulary.
pub fn is_valid_cell_char(c: char) -> (r: bool)
    ensures
        r == is_cell_char(c),
{
    match c {
        ' ' | '0' | '\u{2190}' | '\u{2513}' | '\u{2518}' | '\u{2192}' | '\u{250c}'
        | '\u{2517}' | '\u{2191}' | '\u{251b}' | '\u{2514}' | '\u{2193}' | '\u{2510}'
        | '\u{250f}' => true,
        _ => false,
    }
}

/// A whitespace character, after Unicode's White_Space property: the set that
/// line trimming removes from both ends of every diagram line.
pub open spec fn is_space(c: char) -> bool {
    ||| c == ' '
    ||| c == '\t'
    ||| c == '\n'
    ||| c == '\u{b}'
    ||| c == '\u{c}'
    ||| c == '\r'
    ||| c == '\u{85}'
    ||| c == '\u{a0}'
    ||| c == '\u{1680}'
    ||| (0x2000 <= c as u32 && c as u32 <= 0x200a)
    ||| c == '\u{2028}'
    ||| c == '\u{2029}'
    ||| c == '\u{202f}'
    ||| c == '\u{205f}'
    ||| c == '\u{3000}'
}

/// Decides whether a character is trimmable whitespace.
pub fn is_space_char(c: char) -> (r: bool)
    ensures
        r == is_space(c),
{
    let v = c as u32;
    v == 0x20 || v == 0x9 || v == 0xa || v == 0xb || v == 0xc || v == 0xd || v == 0x85
        || v == 0xa0 || v == 0x1680 || (0x2000 <= v && v <= 0x200a) || v == 0x2028
        || v == 0x2029 || v == 0x202f || v == 0x205f || v == 0x3000
}

/// Splits text into lines while carrying the current, still unterminated
/// line: every `'\n'` ends a line, and a non-empty final line counts too.
pub open spec fn split_acc(s: Seq<char>, cur: Seq<char>) -> Seq<Seq<char>>
    decreases s.len(),
{
    if s.len() == 0 {
        if cur.len() == 0 {
            Seq::<Seq<char>>::empty()
        } else {
            seq![cur]
        }
    } else if s[0] == '\n' {
        seq![cur] + split_acc(s.drop_first(), Seq::<char>::empty())
    } else {
        split_acc(s.drop_first(), cur.push(s[0]))
    }
}

/// The lines of a text: pieces between newline characters, without a
/// phantom empty line after a trailing newline.
pub open spec fn split_lines(s: Seq<char>) -> Seq<Seq<char>> {
    split_acc(s, Seq::<char>::empty())
}

/// Removes leading whitespace.
pub open spec fn trim_start_rec(s: Seq<char>) -> Seq<char>
    decreases s.len(),
{
    if s.len() > 0 && is_space(s[0]) {
        trim_start_rec(s.drop_first())
    } else {
        s
    }
}

/// Removes trailing whitespace.
pub open spec fn trim_end_rec(s: Seq<char>) -> Seq<char>
    decreases s.len(),
{
    if s.len() > 0 && is_space(s.last()) {
        trim_end_rec(s.drop_last())
    } else {
        s
    }
}

/// Removes whitespace from both ends of a line.
pub open spec fn trim_line(s: Seq<char>) -> Seq<char> {
    trim_end_rec(trim_start_rec(s))
}

/// The lines of a text, each trimmed: the rows a diagram is built from.
pub open spec fn trimmed_lines(s: Seq<char>) -> Seq<Seq<char>> {
    split_lines(s).map_values(|l: Seq<char>| trim_line(l))
}

/// The largest row length.
pub open spec fn max_len(rows: Seq<Seq<char>>) -> int
    decreases rows.len(),
{
    if rows.len() == 0 {
        0
    } else {
        let m = max_len(rows.drop_last());
        if rows.last().len() > m {
            rows.last().len() as int
        } else {
            m
        }
    }
}

/// Every row length is bounded by the largest one.
pub proof fn lemma_max_len_ge(rows: Seq<Seq<char>>, i: int)
    requires
        0 <= i < rows.len(),
    ensures
        rows[i].len() <= max_len(rows),
    decreases rows.len(),
{
    if i < rows.len() - 1 {
        lemma_max_len_ge(rows.drop_last(), i);
    }
}

/// Every character of every row belongs to the diagram vocabulary.
pub open spec fn row_valid(row: Seq<char>) -> bool {
    forall|j: int| 0 <= j < row.len() ==> is_cell_char(#[trigger] row[j])
}

/// All rows are valid.
pub open spec fn all_rows_valid(rows: Seq<Seq<char>>) -> bool {
    forall|i: int| 0 <= i < rows.len() ==> row_valid(#[trigger] rows[i])
}

/// The views of a vector of rows.
pub open spec fn rows_view(table: Seq<Vec<char>>) -> Seq<Seq<char>> {
    table.map_values(|row: Vec<char>| row@)
}

/// Splits text into its lines.
fn split_rows(s: &str) -> (rows: Vec<Vec<char>>)
    ensures
        rows_view(rows@) == split_lines(s@),
{
    let n = s.unicode_len();
    let mut rows: Vec<Vec<char>> = Vec::new();
    let mut cur: Vec<char> = Vec::new();
    let mut i: usize = 0;
    proof {
        assert(s@.skip(0) =~= s@);
        assert(rows_view(rows@) + split_acc(s@, cur@) =~= split_acc(s@, cur@));
    }
    while i < n
        invariant
            n == s@.len(),
            i <= n,
            split_lines(s@) == rows_view(rows@) + split_acc(s@.skip(i as int), cur@),
        decreases n - i,
    {
        let ghost prev_rows = rows@;
        let ghost prev_cur = cur@;
        let c = s.get_char(i);
        if c == '\n' {
            rows.push(cur);
            cur = Vec::new();
        } else {
            cur.push(c);
        }
        i = i + 1;
        proof {
            assert(s@.skip(i - 1 as int).drop_first() =~= s@.skip(i as int));
            if c == '\n' {
                assert(rows_view(rows@) =~= rows_view(prev_rows) + seq![prev_cur]);
                assert(rows_view(prev_rows) + (seq![prev_cur] + split_acc(
                    s@.skip(i as int),
                    Seq::<char>::empty(),
                )) =~= (rows_view(prev_rows) + seq![prev_cur]) + split_acc(
                    s@.skip(i as int),
                    Seq::<char>::empty(),
                ));
            }
        }
    }
    proof {
        assert(s@.skip(n as int) =~= Seq::<char>::empty());
    }
    if cur.len() > 0 {
        let ghost prev_rows = rows@;
        let ghost prev_cur = cur@;
        rows.push(cur);
        proof {
            assert(rows_view(rows@) =~= rows_view(prev_rows) + seq![prev_cur]);
        }
    }
    proof {
        assert(rows_view(rows@) + Seq::<Seq<char>>::empty() =~= rows_view(rows@));
    }
    rows
}

/// Trims whitespace from both ends of one row.
fn trim_row(row: &Vec<char>) -> (r: Vec<char>)
    ensures
        r@ == trim_line(row@),
{
    let len = row.len();
    let mut a: usize = 0;
    proof {
        assert(row@.skip(0) =~= row@);
    }
    while a < len && is_space_char(row[a])
        invariant
            len == row@.len(),
            a <= len,
            trim_start_rec(row@) == trim_start_rec(row@.skip(a as int)),
        decreases len - a,
    {
        proof {
            assert(row@.skip(a as int).drop_first() =~= row@.skip(a + 1 as int));
        }
        a = a + 1;
    }
    if a == len {
        proof {
            assert(row@.skip(a as int) =~= Seq::<char>::empty());
        }
        let r: Vec<char> = Vec::new();
        return r;
    }
    // row[a] is not whitespace, so trimming at the start keeps the suffix.
    proof {
        assert(trim_start_rec(row@) == row@.skip(a as int));
    }
    let mut b: usize = len;
    while b > a + 1 && is_space_char(row[b - 1])
        invariant
            len == row@.len(),
            a < b <= len,
            !is_space(row@[a as int]),
            trim_end_rec(row@.skip(a as int)) == trim_end_rec(row@.subrange(a as int, b as int)),
        decreases b,
    {
        proof {
            assert(row@.subrange(a as int, b as int).drop_last() =~= row@.subrange(
                a as int,
                b - 1 as int,
            ));
            assert(row@.skip(a as int) =~= row@.subrange(a as int, len as int));
        }
        b = b - 1;
    }
    proof {
        assert(row@.skip(a as int) =~= row@.subrange(a as int, len as int));
        assert(row@.subrange(a as int, b as int).last() == row@[b - 1 as int]);
    }
    let mut r: Vec<char> = Vec::new();
    let mut i: usize = a;
    while i < b
        invariant
            a <= i <= b <= len,
            len == row@.len(),
            r@ == row@.subrange(a as int, i as int),
        decreases b - i,
    {
        r.push(row[i]);
        i = i + 1;
        proof {
            assert(row@.subrange(a as int, i as int) =~= row@.subrange(a as int, i - 1 as int)
                .push(row@[i - 1 as int]));
        }
    }
    proof {
        assert(r@ == row@.subrange(a as int, b as int));
    }
    r
}

/// The two ways a diagram can be refused. Diagrams are build-time
/// configuration, so either error is fatal to the caller's setup.
#[derive(Copy, Clone, PartialEq, Eq, Structural, Debug)]
pub enum DiagramError {
    /// A character outside the diagram vocabulary.
    MalformedCharacter,
    /// No lines, or every line trims to nothing: a grid without area.
    DegenerateGeometry,
}

/// A parsed diagram: a rectangular grid of cells, one character each.
/// Rows keep their trimmed length; lookups past a short row read as blank.
pub struct CellTable {
    pub table: Vec<Vec<char>>,
    pub width: usize,
    pub height: usize,
}

/// The inputs the parser accepts: at least one line, at least one column
/// after trimming, and only vocabulary characters.
pub open spec fn parse_accepts(s: Seq<char>) -> bool {
    &&& split_lines(s).len() > 0
    &&& max_len(trimmed_lines(s)) > 0
    &&& all_rows_valid(trimmed_lines(s))
}

/// What a table parsed from text `s` looks like: its rows are the trimmed
/// lines of `s`, its width the longest trimmed line, its height the line
/// count.
pub open spec fn parses_to(s: Seq<char>, t: CellTable) -> bool {
    &&& t.wf()
    &&& t.rows() == trimmed_lines(s)
    &&& t.width as int == max_len(trimmed_lines(s))
    &&& t.height == split_lines(s).len()
}

impl CellTable {
    /// The grid contents as a sequence of rows.
    pub open spec fn rows(&self) -> Seq<Seq<char>> {
        rows_view(self.table@)
    }

    /// Well-formedness: the stored width and height describe the rows, the
    /// grid has area, and every stored character is in the vocabulary.
    pub open spec fn wf(&self) -> bool {
        &&& self.height == self.rows().len()
        &&& self.width as int == max_len(self.rows())
        &&& self.width > 0
        &&& self.height > 0
        &&& all_rows_valid(self.rows())
    }

    /// The character of a cell, with blank for any out-of-range lookup.
    pub open spec fn spec_get(&self, x: int, y: int) -> char {
        if y < 0 || y >= self.rows().len() {
            ' '
        } else if x < 0 || x >= self.rows()[y].len() {
            ' '
        } else {
            self.rows()[y][x]
        }
    }

    /// Parses a multi-line text into a cell table.
    ///
    /// Each line is trimmed of leading and trailing whitespace; the width is
    /// the longest trimmed line's character count and the height the number
    /// of lines. A character outside the vocabulary or a grid without area
    /// is refused, and nothing partial is ever returned.
    pub fn new(cell_info: &str) -> (r: Result<CellTable, DiagramError>)
        ensures
            (r is Ok) <==> parse_accepts(cell_info@),
            (match r {
                Ok(t) => parses_to(cell_info@, t),
                Err(e) => {
                    &&& (e == DiagramError::DegenerateGeometry <==> (split_lines(cell_info@).len()
                        == 0 || max_len(trimmed_lines(cell_info@)) == 0))
                    &&& (e == DiagramError::MalformedCharacter <==> (split_lines(
                        cell_info@,
                    ).len() > 0 && max_len(trimmed_lines(cell_info@)) > 0 && !all_rows_valid(
                        trimmed_lines(cell_info@),
                    )))
                },
            }),
    {
        let raw_rows = split_rows(cell_info);
        let mut table: Vec<Vec<char>> = Vec::new();
        let mut j: usize = 0;
        while j < raw_rows.len()
            invariant
                j <= raw_rows@.len(),
                table@.len() == j,
                forall|k: int|
                    0 <= k < j ==> (#[trigger] table@[k])@ == trim_line(rows_view(raw_rows@)[k]),
            decreases raw_rows@.len() - j,
        {
            let t = trim_row(&raw_rows[j]);
            table.push(t);
            j = j + 1;
        }
        proof {
            assert(rows_view(table@) =~= trimmed_lines(cell_info@));
        }
        let height = table.len();
        let mut width: usize = 0;
        let mut k: usize = 0;
        proof {
            assert(rows_view(table@).take(0) =~= Seq::<Seq<char>>::empty());
        }
        while k < height
            invariant
                height == table@.len(),
                k <= height,
                width as int == max_len(rows_view(table@).take(k as int)),
            decreases height - k,
        {
            let l = table[k].len();
            if l > width {
                width = l;
            }
            k = k + 1;
            proof {
                assert(rows_view(table@).take(k as int).drop_last() =~= rows_view(table@).take(
                    k - 1 as int,
                ));
            }
        }
        proof {
            assert(rows_view(table@).take(height as int) =~= rows_view(table@));
        }
        if height == 0 || width == 0 {
            return Err(DiagramError::DegenerateGeometry);
        }
        let mut y: usize = 0;
        while y < height
            invariant
                height == table@.len(),
                y <= height,
                rows_view(table@) == trimmed_lines(cell_info@),
                split_lines(cell_info@).len() == height,
                max_len(trimmed_lines(cell_info@)) == width,
                width > 0,
                height > 0,
                forall|i: int| 0 <= i < y ==> row_valid(#[trigger] rows_view(table@)[i]),
            decreases height - y,
        {
            let row_len = table[y].len();
            let mut x: usize = 0;
            while x < row_len
                invariant
                    height == table@.len(),
                    y < height,
                    row_len == table@[y as int]@.len(),
                    x <= row_len,
                    rows_view(table@) == trimmed_lines(cell_info@),
                    split_lines(cell_info@).len() == height,
                    max_len(trimmed_lines(cell_info@)) == width,
                    width > 0,
                    height > 0,
                    forall|i: int| 0 <= i < y ==> row_valid(#[trigger] rows_view(table@)[i]),
                    forall|i: int| 0 <= i < x ==> is_cell_char(#[trigger] table@[y as int]@[i]),
                decreases row_len - x,
            {
                if !is_valid_cell_char(table[y][x]) {
                    proof {
                        assert(trimmed_lines(cell_info@)[y as int] == rows_view(
                            table@,
                        )[y as int]);
                        assert(!row_valid(trimmed_lines(cell_info@)[y as int]));
                        assert(!all_rows_valid(trimmed_lines(cell_info@)));
                    }
                    return Err(DiagramError::MalformedCharacter);
                }
                x = x + 1;
            }
            proof {
                assert(row_valid(rows_view(table@)[y as int]));
            }
            y = y + 1;
        }
        let t = CellTable { table, width, height };
        proof {
            assert(t.rows() == trimmed_lines(cell_info@));
        }
        Ok(t)
    }

    /// The character of a cell; blank for any out-of-range lookup.
    pub fn get(&self, x: usize, y: usize) -> (r: char)
        requires
            self.wf(),
        ensures
            r == self.spec_get(x as int, y as int),
            x >= self.width || y >= self.height ==> r == ' ',
    {
        if y >= self.height {
            return ' ';
        }
        let row = &self.table[y];
        if x >= row.len() {
            return ' ';
        }
        proof {
            lemma_max_len_ge(self.rows(), y as int);
        }
        row[x]
    }

    /// The motion directive of a cell; out-of-range lookups give the blank
    /// directive, never an error.
    pub fn move_type_at(&self, x: usize, y: usize) -> (r: MoveType)
        requires
            self.wf(),
        ensures
            r == directive_total(self.spec_get(x as int, y as int)),
            x >= self.width || y >= self.height ==> r == MoveType::Blank,
    {
        let c = self.get(x, y);
        proof {
            if y < self.height && x < self.rows()[y as int].len() {
                assert(row_valid(self.rows()[y as int]));
            }
        }
        move_type_from_char(c)
    }
}

/// Parsing is deterministic: two tables parsed from the same text have the
/// same width, the same height, and the same cell contents.
pub proof fn lemma_parse_deterministic(s: Seq<char>, t1: CellTable, t2: CellTable)
    requires
        parses_to(s, t1),
        parses_to(s, t2),
    ensures
        t1.width == t2.width,
        t1.height == t2.height,
        t1.rows() == t2.rows(),
        forall|x: int, y: int| t1.spec_get(x, y) == t2.spec_get(x, y),
{
}

} // verus!
