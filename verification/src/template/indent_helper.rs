//! The helper that indents a text.

use vstd::prelude::*;
use crate::text::chars_of;
use crate::text::lines;
use crate::text::lines_of;
use crate::text::push_all;
use crate::text::rows_of;
use crate::text::string_of;

verus! {

/// The helper that indents a text.
#[derive(Clone, Copy, Debug)]
pub struct IndentHelper;

/// The first `n` lines, each behind the indent and with a line feed at its
/// end.
pub open spec fn indented(ls: Seq<Seq<char>>, indent: Seq<char>, n: int) -> Seq<char>
    decreases n,
{
    if n <= 0 || n > ls.len() {
        Seq::empty()
    } else {
        indented(ls, indent, n - 1) + indent + ls[n - 1] + seq!['\n']
    }
}

/// `n` spaces.
pub open spec fn spaces(n: nat) -> Seq<char> {
    Seq::new(n, |i: int| ' ')
}

impl IndentHelper {
    /// Puts `indent` before every line of `body` and ends every line with a
    /// line feed.
    pub fn indent(body: &str, indent: &str) -> (r: String)
        ensures
            r@ == indented(lines(body@), indent@, lines(body@).len() as int),
    {
        let text = chars_of(body);
        let prefix = chars_of(indent);
        let ls = lines_of(&text);
        let ghost model = lines(body@);
        let mut out: Vec<char> = Vec::new();
        let mut i: usize = 0;
        while i < ls.len()
            invariant
                i <= ls.len(),
                model == rows_of(ls@),
                prefix@ == indent@,
                out@ == indented(model, indent@, i as int),
            decreases ls.len() - i,
        {
            assert(model[i as int] == ls@[i as int]@);
            let ghost before = out@;
            push_all(&mut out, &prefix);
            push_all(&mut out, &ls[i]);
            out.push('\n');
            assert(out@ =~= before + indent@ + model[i as int] + seq!['\n']);
            i += 1;
        }
        string_of(&out)
    }

    /// An indent of `n` spaces.
    pub fn spaces_indent(n: usize) -> (r: String)
        ensures
            r@ == spaces(n as nat),
    {
        let mut out: Vec<char> = Vec::new();
        let mut i: usize = 0;
        while i < n
            invariant
                i <= n,
                out@ == spaces(i as nat),
            decreases n - i,
        {
            out.push(' ');
            assert(out@ =~= spaces((i + 1) as nat));
            i += 1;
        }
        string_of(&out)
    }
}

} // verus!
