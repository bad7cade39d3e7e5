//! Export canvas to text, plain or with ANSI escape codes.

use vstd::prelude::*;

use crate::canvas::Canvas;
use crate::canvas::Cell;

verus! {

/// The two-digit SGR foreground code for a color index: 30-37 for the
/// standard colors, 90-97 for the bright ones, 37 for anything else.
pub open spec fn fg_code_spec(fg: u8) -> Seq<char> {
    if fg == 0 {
        seq!['3', '0']
    } else if fg == 1 {
        seq!['3', '1']
    } else if fg == 2 {
        seq!['3', '2']
    } else if fg == 3 {
        seq!['3', '3']
    } else if fg == 4 {
        seq!['3', '4']
    } else if fg == 5 {
        seq!['3', '5']
    } else if fg == 6 {
        seq!['3', '6']
    } else if fg == 7 {
        seq!['3', '7']
    } else if fg == 8 {
        seq!['9', '0']
    } else if fg == 9 {
        seq!['9', '1']
    } else if fg == 10 {
        seq!['9', '2']
    } else if fg == 11 {
        seq!['9', '3']
    } else if fg == 12 {
        seq!['9', '4']
    } else if fg == 13 {
        seq!['9', '5']
    } else if fg == 14 {
        seq!['9', '6']
    } else if fg == 15 {
        seq!['9', '7']
    } else {
        seq!['3', '7']
    }
}

/// The escape that selects a foreground color.
pub open spec fn color_escape(fg: u8) -> Seq<char> {
    seq!['\x1b', '['] + fg_code_spec(fg) + seq!['m']
}

/// The SGR reset escape.
pub open spec fn reset_escape() -> Seq<char> {
    seq!['\x1b', '[', '0', 'm']
}

/// The glyphs of one canvas row, left to right.
pub open spec fn row_chars(c: Canvas, y: int) -> Seq<char> {
    Seq::new(c.width as nat, |x: int| c.cell_at(x, y).char)
}

/// The cells of one canvas row, left to right.
pub open spec fn row_cells(c: Canvas, y: int) -> Seq<Cell> {
    Seq::new(c.width as nat, |x: int| c.cell_at(x, y))
}

/// Drop trailing spaces (and, when asked, trailing newlines too).
pub open spec fn trim_trailing(s: Seq<char>, also_newline: bool) -> Seq<char>
    decreases s.len(),
{
    if s.len() > 0 && (s.last() == ' ' || (also_newline && s.last() == '\n')) {
        trim_trailing(s.drop_last(), also_newline)
    } else {
        s
    }
}

/// Join lines with a newline between consecutive lines.
pub open spec fn join_lines(lines: Seq<Seq<char>>) -> Seq<char>
    decreases lines.len(),
{
    if lines.len() == 0 {
        Seq::empty()
    } else if lines.len() == 1 {
        lines[0]
    } else {
        join_lines(lines.drop_last()) + seq!['\n'] + lines.last()
    }
}

/// Drop one trailing newline at a time as long as the text ends in two.
pub open spec fn squeeze_trailing_newlines(s: Seq<char>) -> Seq<char>
    decreases s.len(),
{
    if s.len() >= 2 && s.last() == '\n' && s[s.len() - 2] == '\n' {
        squeeze_trailing_newlines(s.drop_last())
    } else {
        s
    }
}

/// One row rendered with ANSI color runs: a color escape before a run of
/// same-colored non-space glyphs, a reset before any space while a color
/// is active, and a reset at line end if one is still active.
pub open spec fn ansi_cells(row: Seq<Cell>, cur: Option<u8>) -> Seq<char>
    decreases row.len(),
{
    if row.len() == 0 {
        if cur is Some {
            reset_escape()
        } else {
            Seq::empty()
        }
    } else {
        let cell = row.first();
        if cell.char != ' ' {
            if cur != Some(cell.fg) {
                color_escape(cell.fg) + seq![cell.char] + ansi_cells(
                    row.drop_first(),
                    Some(cell.fg),
                )
            } else {
                seq![cell.char] + ansi_cells(row.drop_first(), cur)
            }
        } else {
            if cur is Some {
                reset_escape() + seq![' '] + ansi_cells(row.drop_first(), None)
            } else {
                seq![' '] + ansi_cells(row.drop_first(), None)
            }
        }
    }
}

/// What `export_ansi` produces.
pub open spec fn ansi_export_spec(c: Canvas, trim: bool) -> Seq<char> {
    let lines = Seq::new(
        c.height as nat,
        |y: int|
            if trim {
                trim_trailing(ansi_cells(row_cells(c, y), None), false)
            } else {
                ansi_cells(row_cells(c, y), None)
            },
    );
    if trim {
        squeeze_trailing_newlines(join_lines(lines))
    } else {
        join_lines(lines)
    }
}

/// What `export_plain` produces.
pub open spec fn plain_export_spec(c: Canvas, trim: bool) -> Seq<char> {
    let lines = Seq::new(
        c.height as nat,
        |y: int|
            if trim {
                trim_trailing(row_chars(c, y), false)
            } else {
                row_chars(c, y)
            },
    );
    if trim {
        trim_trailing(join_lines(lines), true)
    } else {
        join_lines(lines)
    }
}

/// Relies on String::push: appends exactly the given character.
#[verifier::external_body]
fn push_char(s: &mut String, c: char)
    ensures
        final(s)@ == old(s)@.push(c),
{
    s.push(c);
}

/// Relies on String::pop: removes exactly the last character.
#[verifier::external_body]
fn pop_char(s: &mut String)
    requires
        old(s)@.len() > 0,
    ensures
        final(s)@ == old(s)@.drop_last(),
{
    s.pop();
}

/// Read one character of a string by position.
fn char_at(s: &String, i: usize) -> (c: char)
    requires
        i < s@.len(),
    ensures
        c == s@[i as int],
{
    s.as_str().get_char(i)
}

/// Remove trailing spaces (and newlines, when asked) from a string.
fn trim_string_end(s: &mut String, also_newline: bool)
    ensures
        final(s)@ == trim_trailing(old(s)@, also_newline),
{
    loop
        invariant
            trim_trailing(s@, also_newline) == trim_trailing(old(s)@, also_newline),
        ensures
            s@ == trim_trailing(old(s)@, also_newline),
        decreases s@.len(),
    {
        let n = s.as_str().unicode_len();
        if n == 0 {
            break;
        }
        let last = char_at(s, n - 1);
        if last == ' ' || (also_newline && last == '\n') {
            pop_char(s);
        } else {
            break;
        }
    }
}

/// Append the foreground color escape for the given index.
fn push_color_escape(s: &mut String, fg: u8)
    ensures
        final(s)@ == old(s)@ + color_escape(fg),
{
    push_char(s, '\x1b');
    push_char(s, '[');
    if fg < 8 {
        push_char(s, '3');
    } else if fg < 16 {
        push_char(s, '9');
    } else {
        push_char(s, '3');
    }
    let digit = if fg < 8 {
        fg
    } else if fg < 16 {
        fg - 8
    } else {
        7
    };
    push_char(
        s,
        match digit {
            0 => '0',
            1 => '1',
            2 => '2',
            3 => '3',
            4 => '4',
            5 => '5',
            6 => '6',
            _ => '7',
        },
    );
    push_char(s, 'm');
    proof {
        assert(final(s)@ =~= old(s)@ + color_escape(fg));
    }
}

/// Append the SGR reset escape.
fn push_reset_escape(s: &mut String)
    ensures
        final(s)@ == old(s)@ + reset_escape(),
{
    push_char(s, '\x1b');
    push_char(s, '[');
    push_char(s, '0');
    push_char(s, 'm');
    proof {
        assert(final(s)@ =~= old(s)@ + reset_escape());
    }
}

/// Render one canvas row with ANSI color runs.
fn ansi_line(canvas: &Canvas, y: u16) -> (line: String)
    requires
        canvas.wf(),
        y < canvas.height,
    ensures
        line@ == ansi_cells(row_cells(*canvas, y as int), None),
{
    let ghost row = row_cells(*canvas, y as int);
    let mut line = String::new();
    let mut current_fg: Option<u8> = None;
    let ghost full = ansi_cells(row, None);
    proof {
        assert(row.skip(0) =~= row);
    }
    let mut x: u16 = 0;
    while x < canvas.width
        invariant
            canvas.wf(),
            y < canvas.height,
            x <= canvas.width,
            row == row_cells(*canvas, y as int),
            full == ansi_cells(row, None),
            full == line@ + ansi_cells(row.skip(x as int), current_fg),
        decreases canvas.width - x,
    {
        let ghost pre = line@;
        let ghost old_fg = current_fg;
        let ghost rest = row.skip(x as int);
        proof {
            assert(rest.first() == row[x as int]);
            assert(rest.drop_first() =~= row.skip(x as int + 1));
            assert(row[x as int] == canvas.cell_at(x as int, y as int));
        }
        let cell = *canvas.get(x, y).unwrap();
        if cell.char != ' ' {
            let emit = match current_fg {
                Some(f) => f != cell.fg,
                None => true,
            };
            if emit {
                push_color_escape(&mut line, cell.fg);
                current_fg = Some(cell.fg);
            }
            push_char(&mut line, cell.char);
            proof {
                if old_fg != Some(cell.fg) {
                    assert(ansi_cells(rest, old_fg) == color_escape(cell.fg) + seq![cell.char]
                        + ansi_cells(rest.drop_first(), Some(cell.fg)));
                    assert(line@ =~= pre + (color_escape(cell.fg) + seq![cell.char]));
                } else {
                    assert(ansi_cells(rest, old_fg) == seq![cell.char] + ansi_cells(
                        rest.drop_first(),
                        old_fg,
                    ));
                }
                assert(pre + ansi_cells(rest, old_fg) =~= line@ + ansi_cells(
                    rest.drop_first(),
                    current_fg,
                ));
            }
        } else {
            if current_fg.is_some() {
                push_reset_escape(&mut line);
                current_fg = None;
                push_char(&mut line, ' ');
                proof {
                    assert(ansi_cells(rest, old_fg) == reset_escape() + seq![' '] + ansi_cells(
                        rest.drop_first(),
                        None,
                    ));
                    assert(line@ =~= pre + (reset_escape() + seq![' ']));
                    assert(pre + ansi_cells(rest, old_fg) =~= line@ + ansi_cells(
                        rest.drop_first(),
                        None,
                    ));
                }
            } else {
                push_char(&mut line, ' ');
                proof {
                    assert(ansi_cells(rest, old_fg) == seq![' '] + ansi_cells(
                        rest.drop_first(),
                        None,
                    ));
                    assert(pre + ansi_cells(rest, old_fg) =~= line@ + ansi_cells(
                        rest.drop_first(),
                        None,
                    ));
                }
            }
        }
        x = x + 1;
    }
    proof {
        assert(row.skip(canvas.width as int) =~= Seq::<Cell>::empty());
    }
    if current_fg.is_some() {
        push_reset_escape(&mut line);
    }
    proof {
        assert(line@ =~= full);
    }
    line
}

/// Render one canvas row as bare glyphs.
fn plain_line(canvas: &Canvas, y: u16) -> (line: String)
    requires
        canvas.wf(),
        y < canvas.height,
    ensures
        line@ == row_chars(*canvas, y as int),
{
    let mut line = String::new();
    let mut x: u16 = 0;
    while x < canvas.width
        invariant
            canvas.wf(),
            y < canvas.height,
            x <= canvas.width,
            line@ =~= row_chars(*canvas, y as int).take(x as int),
        decreases canvas.width - x,
    {
        let cell = *canvas.get(x, y).unwrap();
        push_char(&mut line, cell.char);
        proof {
            assert(line@ =~= row_chars(*canvas, y as int).take(x as int + 1));
        }
        x = x + 1;
    }
    proof {
        assert(row_chars(*canvas, y as int).take(canvas.width as int) =~= row_chars(
            *canvas,
            y as int,
        ));
    }
    line
}

/// While the text ends in two newlines, drop one.
fn squeeze_newlines(out: &mut String)
    ensures
        final(out)@ == squeeze_trailing_newlines(old(out)@),
{
    loop
        invariant
            squeeze_trailing_newlines(out@) == squeeze_trailing_newlines(old(out)@),
        ensures
            out@ == squeeze_trailing_newlines(old(out)@),
        decreases out@.len(),
    {
        let n = out.as_str().unicode_len();
        if n < 2 {
            break;
        }
        let a = char_at(out, n - 1);
        let b = char_at(out, n - 2);
        if a == '\n' && b == '\n' {
            pop_char(out);
        } else {
            break;
        }
    }
}

/// Export canvas to text with ANSI escape codes: a foreground escape
/// opens each run of same-colored glyphs and a reset closes it. With
/// `trim_whitespace`, trailing spaces go from each row and runs of
/// trailing blank rows are squeezed.
pub fn export_ansi(canvas: &Canvas, trim_whitespace: bool) -> (out: String)
    requires
        canvas.wf(),
    ensures
        out@ == ansi_export_spec(*canvas, trim_whitespace),
{
    let ghost lines_spec = Seq::new(
        canvas.height as nat,
        |y: int|
            if trim_whitespace {
                trim_trailing(ansi_cells(row_cells(*canvas, y), None), false)
            } else {
                ansi_cells(row_cells(*canvas, y), None)
            },
    );
    let mut out = String::new();
    let mut y: u16 = 0;
    while y < canvas.height
        invariant
            canvas.wf(),
            y <= canvas.height,
            lines_spec == Seq::new(
                canvas.height as nat,
                |y: int|
                    if trim_whitespace {
                        trim_trailing(ansi_cells(row_cells(*canvas, y), None), false)
                    } else {
                        ansi_cells(row_cells(*canvas, y), None)
                    },
            ),
            out@ == join_lines(lines_spec.take(y as int)),
        decreases canvas.height - y,
    {
        let mut line = ansi_line(canvas, y);
        if trim_whitespace {
            trim_string_end(&mut line, false);
        }
        if y > 0 {
            push_char(&mut out, '\n');
        }
        out.append(line.as_str());
        proof {
            assert(lines_spec.take(y as int + 1).drop_last() =~= lines_spec.take(y as int));
            assert(out@ == join_lines(lines_spec.take(y as int + 1)));
        }
        y = y + 1;
    }
    proof {
        assert(lines_spec.take(canvas.height as int) =~= lines_spec);
    }
    if trim_whitespace {
        squeeze_newlines(&mut out);
    }
    out
}

/// Export canvas to plain text without ANSI codes. With
/// `trim_whitespace`, trailing spaces go from each row and all trailing
/// whitespace from the end.
pub fn export_plain(canvas: &Canvas, trim_whitespace: bool) -> (out: String)
    requires
        canvas.wf(),
    ensures
        out@ == plain_export_spec(*canvas, trim_whitespace),
{
    let ghost lines_spec = Seq::new(
        canvas.height as nat,
        |y: int|
            if trim_whitespace {
                trim_trailing(row_chars(*canvas, y), false)
            } else {
                row_chars(*canvas, y)
            },
    );
    let mut out = String::new();
    let mut y: u16 = 0;
    while y < canvas.height
        invariant
            canvas.wf(),
            y <= canvas.height,
            lines_spec == Seq::new(
                canvas.height as nat,
                |y: int|
                    if trim_whitespace {
                        trim_trailing(row_chars(*canvas, y), false)
                    } else {
                        row_chars(*canvas, y)
                    },
            ),
            out@ == join_lines(lines_spec.take(y as int)),
        decreases canvas.height - y,
    {
        let mut line = plain_line(canvas, y);
        if trim_whitespace {
            trim_string_end(&mut line, false);
        }
        if y > 0 {
            push_char(&mut out, '\n');
        }
        out.append(line.as_str());
        proof {
            assert(lines_spec.take(y as int + 1).drop_last() =~= lines_spec.take(y as int));
            assert(out@ == join_lines(lines_spec.take(y as int + 1)));
        }
        y = y + 1;
    }
    proof {
        assert(lines_spec.take(canvas.height as int) =~= lines_spec);
    }
    if trim_whitespace {
        trim_string_end(&mut out, true);
    }
    out
}

} // verus!
