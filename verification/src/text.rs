use vstd::prelude::*;
use vstd::string::StrSliceExecFns;

verus! {

/// The display width, in terminal columns, that the unicode-width tables
/// assign to a character: `None` for a control character.
pub uninterp spec fn char_display_width(c: char) -> Option<usize>;

/// The width a character takes in table layout: its display width, with
/// control characters counting as zero columns.
pub open spec fn layout_width(c: char) -> nat {
    match char_display_width(c) {
        Option::Some(w) => w as nat,
        Option::None => 0,
    }
}

/// Relies on unicode_width's UnicodeWidthChar::width: the character's
/// displayed width in columns per the crate's Unicode tables — `None` for a
/// control character, and never more than three columns otherwise (the
/// tables pack widths in two bits, and the special-cased characters top out
/// at three).
#[verifier::external_body]
fn char_width(c: char) -> (r: Option<usize>)
    ensures
        r == char_display_width(c),
        r matches Some(w) ==> w <= 3,
{
    unicode_width::UnicodeWidthChar::width(c)
}

/// Relies on std's String::push: appends one character to the string.
pub assume_specification[ String::push ](s: &mut String, c: char)
    ensures
        final(s)@ == old(s)@.push(c),
;

/// The text re-flowed to a column budget, processed one character at a time:
/// a newline is inserted before each character that would overflow the
/// current line, and the line width restarts at that character's width.
/// `cur` is the width already used on the current line.
pub open spec fn split_by_width_rec(s: Seq<char>, max: nat, cur: nat) -> Seq<char>
    decreases s.len(),
{
    if s.len() == 0 {
        Seq::empty()
    } else {
        let w = layout_width(s[0]);
        if cur + w > max {
            seq!['\n', s[0]] + split_by_width_rec(s.drop_first(), max, w)
        } else {
            seq![s[0]] + split_by_width_rec(s.drop_first(), max, cur + w)
        }
    }
}

/// The text re-flowed to the given column budget, starting on an empty line.
pub open spec fn split_by_width_spec(s: Seq<char>, max: nat) -> Seq<char> {
    split_by_width_rec(s, max, 0)
}

/// Breaks a string into lines of at most `max_width` display columns,
/// joining the lines with newlines. A character wider than the remaining
/// budget starts a new line; a character wider than the whole budget stands
/// on a line of its own.
pub fn split_string_by_width(input: &str, max_width: usize) -> (r: String)
    requires
        max_width + 3 <= usize::MAX,
    ensures
        r@ == split_by_width_spec(input@, max_width as nat),
{
    let n = input.unicode_len();
    let mut out = String::new();
    let mut line_width: usize = 0;
    let mut i: usize = 0;
    proof {
        assert(input@.skip(0) =~= input@);
        assert(out@ + split_by_width_rec(input@, max_width as nat, 0) =~= split_by_width_rec(
            input@,
            max_width as nat,
            0,
        ));
    }
    while i < n
        invariant
            n == input@.len(),
            0 <= i <= n,
            max_width + 3 <= usize::MAX,
            line_width <= max_width || line_width <= 3,
            out@ + split_by_width_rec(input@.skip(i as int), max_width as nat, line_width as nat)
                == split_by_width_spec(input@, max_width as nat),
        decreases n - i,
    {
        let ghost prev_out = out@;
        let ghost rest = input@.skip(i as int);
        let c = input.get_char(i);
        let w = match char_width(c) {
            Some(w) => w,
            None => 0,
        };
        proof {
            assert(rest[0] == input@[i as int]);
            assert(w as nat == layout_width(c));
            assert(rest.drop_first() =~= input@.skip(i as int + 1));
        }
        if line_width + w > max_width {
            out.push('\n');
            out.push(c);
            proof {
                assert(out@ =~= prev_out + seq!['\n', c]);
                assert(prev_out + split_by_width_rec(rest, max_width as nat, line_width as nat)
                    == prev_out + (seq!['\n', c] + split_by_width_rec(
                    rest.drop_first(),
                    max_width as nat,
                    w as nat,
                )));
                assert(prev_out + (seq!['\n', c] + split_by_width_rec(
                    rest.drop_first(),
                    max_width as nat,
                    w as nat,
                )) =~= (prev_out + seq!['\n', c]) + split_by_width_rec(
                    rest.drop_first(),
                    max_width as nat,
                    w as nat,
                ));
            }
            line_width = w;
        } else {
            out.push(c);
            proof {
                assert(out@ =~= prev_out + seq![c]);
                assert(prev_out + split_by_width_rec(rest, max_width as nat, line_width as nat)
                    == prev_out + (seq![c] + split_by_width_rec(
                    rest.drop_first(),
                    max_width as nat,
                    (line_width + w) as nat,
                )));
                assert(prev_out + (seq![c] + split_by_width_rec(
                    rest.drop_first(),
                    max_width as nat,
                    (line_width + w) as nat,
                )) =~= (prev_out + seq![c]) + split_by_width_rec(
                    rest.drop_first(),
                    max_width as nat,
                    (line_width + w) as nat,
                ));
            }
            line_width = line_width + w;
        }
        i = i + 1;
    }
    proof {
        assert(input@.skip(n as int) =~= Seq::<char>::empty());
        assert(out@ + Seq::<char>::empty() =~= out@);
    }
    out
}

/// The number of newline characters in the text.
pub open spec fn newline_count(s: Seq<char>) -> nat
    decreases s.len(),
{
    if s.len() == 0 {
        0
    } else {
        newline_count(s.drop_last()) + if s.last() == '\n' {
            1nat
        } else {
            0nat
        }
    }
}

/// The height, in table rows, that a cell of this text occupies: one row per
/// line, that is the newline count plus one.
pub fn calculate_row_height(text: &str) -> (h: u16)
    requires
        newline_count(text@) + 1 <= u16::MAX,
    ensures
        h == newline_count(text@) + 1,
{
    let n = text.unicode_len();
    let mut count: usize = 0;
    let mut i: usize = 0;
    while i < n
        invariant
            n == text@.len(),
            0 <= i <= n,
            count == newline_count(text@.take(i as int)),
            count <= i,
        decreases n - i,
    {
        let c = text.get_char(i);
        proof {
            let prefix = text@.take(i as int + 1);
            assert(prefix.drop_last() =~= text@.take(i as int));
            assert(prefix.last() == text@[i as int]);
        }
        if c == '\n' {
            count = count + 1;
        }
        i = i + 1;
    }
    proof {
        assert(text@.take(n as int) =~= text@);
    }
    (count + 1) as u16
}

} // verus!
