//! The frame of a fragment file: a separator line, the header block, the
//! separator again, and the body.

use vstd::prelude::*;
use crate::error::FragmentError;
use crate::error::FragmentErrorModel;
use crate::format::Format;
use crate::format::separator_of;
use crate::text::chars_of;
use crate::text::chars_eq;
use crate::text::lemma_first_line;
use crate::text::lemma_lines_concat;
use crate::text::lemma_lines_not_empty;
use crate::text::lemma_next_newline;
use crate::text::lines;
use crate::text::next_newline;
use crate::text::no_newline;
use crate::text::no_return;
use crate::text::strip_cr;
use crate::text::lines_of;
use crate::text::push_all;
use crate::text::push_str;
use crate::text::rows_of;
use crate::text::string_of;

verus! {

/// Whether a line is one of the two separators.
pub open spec fn is_separator(line: Seq<char>) -> bool {
    line == "---"@ || line == "+++"@
}

/// The place of the first separator line at or after `from`, or the number
/// of lines where there is none.
pub open spec fn first_separator(ls: Seq<Seq<char>>, from: int) -> int
    decreases ls.len() - from,
{
    if from < 0 || from >= ls.len() {
        ls.len() as int
    } else if is_separator(ls[from]) {
        from
    } else {
        first_separator(ls, from + 1)
    }
}

/// The lines from `from` up to `to`, with a line feed between each two.
pub open spec fn joined(ls: Seq<Seq<char>>, from: int, to: int) -> Seq<char>
    decreases to - from,
{
    if to <= from || from < 0 || to > ls.len() {
        Seq::empty()
    } else if to == from + 1 {
        ls[from]
    } else {
        joined(ls, from, to - 1) + seq!['\n'] + ls[to - 1]
    }
}

/// The parts of a fragment file.
pub ghost struct Frame {
    pub format: Format,
    pub header: Seq<char>,
    pub body: Seq<char>,
}

/// The frame that the lines `ls` make in the encoding `format`: the header
/// block is what stands between the first line and the next separator, the
/// body what follows that separator. The lines of each are joined by line
/// feeds.
pub open spec fn frame_of(format: Format, ls: Seq<Seq<char>>) -> Frame {
    let close = first_separator(ls, 1);
    Frame { format, header: joined(ls, 1, close), body: joined(ls, close + 1, ls.len() as int) }
}

/// The parts of a fragment file, or why a text is none: it has no line, or
/// its first line is no separator. The first line says which encoding the
/// header has.
pub open spec fn parse_frame(text: Seq<char>) -> Result<Frame, FragmentErrorModel> {
    let ls = lines(text);
    if ls.len() == 0 {
        Err(FragmentErrorModel::HeaderSeperatorMissing)
    } else if ls[0] == "---"@ {
        Ok(frame_of(Format::Yaml, ls))
    } else if ls[0] == "+++"@ {
        Ok(frame_of(Format::Toml, ls))
    } else {
        Err(FragmentErrorModel::ExpectedSeperator(ls[0]))
    }
}

/// The text of a fragment file: separator, header block, separator and body,
/// each on lines of its own.
pub open spec fn frame_text(format: Format, header: Seq<char>, body: Seq<char>) -> Seq<char> {
    separator_of(format) + seq!['\n'] + header + seq!['\n'] + separator_of(format) + seq!['\n']
        + body + seq!['\n']
}

fn line_is_separator(line: &Vec<char>) -> (r: bool)
    ensures
        r == is_separator(line@),
{
    let yaml = chars_of("---");
    let toml = chars_of("+++");
    chars_eq(line, &yaml) || chars_eq(line, &toml)
}

/// Takes a fragment file apart.
pub fn split_document(text: &str) -> (r: Result<(Format, String, String), FragmentError>)
    ensures
        match r {
            Ok((format, header, body)) => parse_frame(text@) == Ok::<Frame, FragmentErrorModel>(
                Frame { format, header: header@, body: body@ },
            ),
            Err(e) => parse_frame(text@) == Err::<Frame, FragmentErrorModel>(e@),
        },
{
    let chars = chars_of(text);
    let ls = lines_of(&chars);
    let ghost model = lines(text@);
    if ls.len() == 0 {
        return Err(FragmentError::HeaderSeperatorMissing);
    }
    assert(model[0] == ls@[0]@);
    let yaml = chars_of("---");
    let toml = chars_of("+++");
    let format = if chars_eq(&ls[0], &yaml) {
        Format::Yaml
    } else if chars_eq(&ls[0], &toml) {
        Format::Toml
    } else {
        return Err(FragmentError::ExpectedSeperator(string_of(&ls[0])));
    };
    let mut header: Vec<char> = Vec::new();
    let mut i: usize = 1;
    while i < ls.len()
        invariant
            1 <= i <= ls.len(),
            model == rows_of(ls@),
            first_separator(model, 1) == first_separator(model, i as int),
            header@ == joined(model, 1, i as int),
        ensures
            1 <= i <= ls.len(),
            i == first_separator(model, 1),
            header@ == joined(model, 1, i as int),
        decreases ls.len() - i,
    {
        assert(model[i as int] == ls@[i as int]@);
        if line_is_separator(&ls[i]) {
            break ;
        }
        if i > 1 {
            header.push('\n');
        }
        push_all(&mut header, &ls[i]);
        proof {
            if i > 1 {
                assert(header@ =~= joined(model, 1, i as int) + seq!['\n'] + model[i as int]);
            } else {
                assert(header@ =~= model[1]);
            }
        }
        i += 1;
    }
    let close = i;
    assert(close == first_separator(model, 1));
    let mut body: Vec<char> = Vec::new();
    if i < ls.len() {
        i += 1;
        while i < ls.len()
            invariant
                close + 1 <= i <= ls.len(),
                model == rows_of(ls@),
                body@ == joined(model, close + 1, i as int),
            decreases ls.len() - i,
        {
            assert(model[i as int] == ls@[i as int]@);
            if i > close + 1 {
                body.push('\n');
            }
            push_all(&mut body, &ls[i]);
            proof {
                if i > close + 1 {
                    assert(body@ =~= joined(model, close + 1, i as int) + seq!['\n']
                        + model[i as int]);
                } else {
                    assert(body@ =~= model[i as int]);
                }
            }
            i += 1;
        }
    }
    Ok((format, string_of(&header), string_of(&body)))
}

/// Puts a fragment file together.
pub fn frame_document(format: Format, header: &str, body: &str) -> (r: String)
    ensures
        r@ == frame_text(format, header@, body@),
{
    let mut out: Vec<char> = Vec::new();
    push_str(&mut out, format.separator());
    out.push('\n');
    push_str(&mut out, header);
    out.push('\n');
    push_str(&mut out, format.separator());
    out.push('\n');
    push_str(&mut out, body);
    out.push('\n');
    assert(out@ =~= frame_text(format, header@, body@));
    string_of(&out)
}


/// Whether none of the lines is a separator.
pub open spec fn no_separator(ls: Seq<Seq<char>>) -> bool {
    forall|i: int| 0 <= i < ls.len() ==> !is_separator(#[trigger] ls[i])
}

/// Joining lines looks at the lines of a range only.
pub proof fn lemma_joined_range(ls: Seq<Seq<char>>, from: int, to: int)
    requires
        0 <= from <= to <= ls.len(),
    ensures
        joined(ls, from, to) == joined(ls.subrange(from, to), 0, to - from),
    decreases to - from,
{
    let part = ls.subrange(from, to);
    if to > from + 1 {
        lemma_joined_range(ls, from, to - 1);
        lemma_joined_prefix(part, to - from - 1);
        assert(ls.subrange(from, to - 1) =~= part.subrange(0, to - from - 1));
    }
}

/// Joining the first lines looks at those lines only.
pub proof fn lemma_joined_prefix(ls: Seq<Seq<char>>, n: int)
    requires
        0 <= n <= ls.len(),
    ensures
        joined(ls, 0, n) == joined(ls.subrange(0, n), 0, n),
    decreases n,
{
    if n > 1 {
        lemma_joined_prefix(ls, n - 1);
        lemma_joined_prefix(ls.subrange(0, n), n - 1);
        assert(ls.subrange(0, n).subrange(0, n - 1) =~= ls.subrange(0, n - 1));
    }
}

/// Joining a line with further lines puts a line feed behind the line.
pub proof fn lemma_joined_cons(a: Seq<char>, ls: Seq<Seq<char>>, m: int)
    requires
        1 <= m <= ls.len(),
    ensures
        joined(seq![a] + ls, 0, 1 + m) == a + seq!['\n'] + joined(ls, 0, m),
    decreases m,
{
    let all = seq![a] + ls;
    assert(all[0] == a);
    assert(all[m] == ls[m - 1]);
    if m == 1 {
        assert(joined(all, 0, 1) == a);
        assert(joined(all, 0, 2) =~= a + seq!['\n'] + ls[0]);
    } else {
        lemma_joined_cons(a, ls, m - 1);
        assert(joined(all, 0, 1 + m) =~= a + seq!['\n'] + joined(ls, 0, m));
    }
}

/// The lines of a text without carriage return, joined again, are the text.
pub proof fn lemma_joined_lines(h: Seq<char>)
    requires
        no_return(h),
    ensures
        joined(lines(h + seq!['\n']), 0, lines(h + seq!['\n']).len() as int) == h,
    decreases h.len(),
{
    let j = next_newline(h, 0);
    lemma_next_newline(h, 0);
    let empty = Seq::<char>::empty();
    if j >= h.len() {
        lemma_first_line(h, empty);
        assert(h + seq!['\n'] + empty =~= h + seq!['\n']);
        assert(lines(empty) =~= Seq::<Seq<char>>::empty());
        assert(lines(h + seq!['\n']) =~= seq![h]);
    } else {
        let a = h.subrange(0, j);
        let h2 = h.subrange(j + 1, h.len() as int);
        assert(h =~= a + seq!['\n'] + h2);
        lemma_first_line(a, h2 + seq!['\n']);
        assert(h + seq!['\n'] =~= a + seq!['\n'] + (h2 + seq!['\n']));
        assert(strip_cr(a) == a);
        let rest = lines(h2 + seq!['\n']);
        lemma_lines_not_empty(h2 + seq!['\n']);
        lemma_joined_lines(h2);
        lemma_joined_cons(a, rest, rest.len() as int);
    }
}

/// Among lines without separator that a separator follows, the first
/// separator is the one that follows.
pub proof fn lemma_separator_found(ls: Seq<Seq<char>>, from: int, at: int)
    requires
        0 <= from <= at < ls.len(),
        forall|k: int| from <= k < at ==> !is_separator(#[trigger] ls[k]),
        is_separator(ls[at]),
    ensures
        first_separator(ls, from) == at,
    decreases at - from,
{
    if from < at {
        lemma_separator_found(ls, from + 1, at);
    }
}

/// The frame of a fragment file reads back: a header block without carriage
/// return and without a line that is a separator, and a body without
/// carriage return, come out of the file as they went in, whatever the
/// encoding.
pub proof fn lemma_frame_round_trip(format: Format, header: Seq<char>, body: Seq<char>)
    requires
        no_return(header),
        no_separator(lines(header + seq!['\n'])),
        no_return(body),
    ensures
        parse_frame(frame_text(format, header, body)) == Ok::<Frame, FragmentErrorModel>(
            Frame { format, header, body },
        ),
{
    reveal_strlit("---");
    reveal_strlit("+++");
    let sep = separator_of(format);
    assert(no_newline(sep));
    assert(strip_cr(sep) == sep);
    assert("---"@ != "+++"@) by {
        assert("---"@[0] == '-');
        assert("+++"@[0] == '+');
    }
    let nl = seq!['\n'];
    let text = frame_text(format, header, body);
    let tail = sep + nl + (body + nl);
    let head_lines = lines(header + nl);
    let body_lines = lines(body + nl);
    lemma_first_line(sep, header + nl + tail);
    assert(text =~= sep + nl + (header + nl + tail));
    lemma_lines_concat(header, tail);
    lemma_first_line(sep, body + nl);
    let ls = lines(text);
    assert(ls =~= seq![sep] + head_lines + seq![sep] + body_lines);
    lemma_lines_not_empty(header + nl);
    let close: int = head_lines.len() as int + 1;
    assert(ls[0] == sep);
    assert(ls[close] == sep);
    assert forall|k: int| 1 <= k < close implies !is_separator(#[trigger] ls[k]) by {
        assert(ls[k] == head_lines[k - 1]);
    }
    lemma_separator_found(ls, 1, close);
    lemma_joined_range(ls, 1, close);
    assert(ls.subrange(1, close) =~= head_lines);
    lemma_joined_lines(header);
    lemma_joined_range(ls, close + 1, ls.len() as int);
    assert(ls.subrange(close + 1, ls.len() as int) =~= body_lines);
    lemma_joined_lines(body);
}

} // verus!
