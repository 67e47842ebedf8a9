//! Showing fragments.

use vstd::prelude::*;
use crate::cli::Selector;
use crate::cli::ShowFormat;
use crate::fragment::Fragment;
use crate::fragment::FragmentModel;
use crate::fragment::FragmentValue;
use crate::fragment::display_text;

verus! {

/// The command that shows fragments.
#[derive(Debug)]
pub struct Show {
    pub format: Option<ShowFormat>,
    pub selector: Option<Selector>,
}

/// One line of a fragment shown as text. How a line is set off is the
/// caller's part: the path stands out, and so does the name of a field.
#[derive(Debug)]
pub enum ShowLine {
    /// The path of the fragment's file.
    Path(String),
    /// A header field: its name and its value.
    Field { key: String, value: String },
    /// The text of the fragment.
    Text(String),
    /// An empty line.
    Blank,
}

/// The mathematical model of a line.
pub ghost enum ShowLineModel {
    Path(Seq<char>),
    Field { key: Seq<char>, value: Seq<char> },
    Text(Seq<char>),
    Blank,
}

impl View for ShowLine {
    type V = ShowLineModel;

    open spec fn view(&self) -> ShowLineModel {
        match self {
            ShowLine::Path(p) => ShowLineModel::Path(p@),
            ShowLine::Field { key, value } => ShowLineModel::Field { key: key@, value: value@ },
            ShowLine::Text(t) => ShowLineModel::Text(t@),
            ShowLine::Blank => ShowLineModel::Blank,
        }
    }
}

/// The models of a vector of lines.
pub open spec fn lines_view(v: Seq<ShowLine>) -> Seq<ShowLineModel> {
    Seq::new(v.len(), |i: int| v[i]@)
}

/// The lines for the first `n` header fields.
pub open spec fn field_lines(header: Seq<(Seq<char>, FragmentValue)>, n: int) -> Seq<ShowLineModel>
    decreases n,
{
    if n <= 0 || n > header.len() {
        Seq::empty()
    } else {
        field_lines(header, n - 1).push(
            ShowLineModel::Field { key: header[n - 1].0, value: display_text(header[n - 1].1) },
        )
    }
}

/// A fragment as lines of text: its path, its header fields in their order,
/// its text, and an empty line.
pub open spec fn shown(path: Seq<char>, fragment: FragmentModel) -> Seq<ShowLineModel> {
    seq![ShowLineModel::Path(path)] + field_lines(fragment.header, fragment.header.len() as int)
        + seq![ShowLineModel::Text(fragment.text), ShowLineModel::Blank]
}

impl Show {
    /// The format that counts: text, unless the caller asked for JSON.
    pub fn effective_format(&self) -> (r: ShowFormat)
        ensures
            r == (match self.format {
                Some(f) => f,
                None => ShowFormat::Text,
            }),
    {
        match self.format {
            Some(f) => f,
            None => ShowFormat::Text,
        }
    }

    /// Lays a fragment out as lines of text.
    pub fn pretty_print(path: &str, fragment: &Fragment) -> (r: Vec<ShowLine>)
        ensures
            lines_view(r@) == shown(path@, fragment@),
    {
        let mut out: Vec<ShowLine> = Vec::new();
        out.push(ShowLine::Path(path.to_owned()));
        let header = fragment.header();
        let mut i: usize = 0;
        assert(lines_view(out@) =~= seq![ShowLineModel::Path(path@)] + field_lines(header@, 0));
        while i < header.len()
            invariant
                i <= header@.len(),
                header@ == fragment@.header,
                lines_view(out@) == seq![ShowLineModel::Path(path@)] + field_lines(
                    header@,
                    i as int,
                ),
            decreases header@.len() - i,
        {
            let ghost before = lines_view(out@);
            if let Some((name, data)) = header.entry_at(i) {
                let key = name.clone();
                let value = data.display().to_text();
                out.push(ShowLine::Field { key, value });
            }
            assert(lines_view(out@) =~= before.push(
                ShowLineModel::Field { key: header@[i as int].0, value: display_text(header@[i as int].1) },
            ));
            assert(lines_view(out@) =~= seq![ShowLineModel::Path(path@)] + field_lines(
                header@,
                i + 1,
            ));
            i += 1;
        }
        let ghost before = lines_view(out@);
        out.push(ShowLine::Text(fragment.text().clone()));
        out.push(ShowLine::Blank);
        assert(lines_view(out@) =~= before + seq![
            ShowLineModel::Text(fragment@.text),
            ShowLineModel::Blank,
        ]);
        out
    }
}

} // verus!
