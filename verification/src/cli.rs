//! What the command line hands to the commands.

use vstd::prelude::*;
use crate::text::chars_of;
use crate::text::push_str;
use crate::text::slice_chars;
use crate::text::str_eq;
use crate::text::string_of;

verus! {

/// A header field set on the command line: the name of the field and the
/// text of its value.
#[derive(Debug)]
pub struct KV {
    pub key: String,
    pub value: String,
}

impl Clone for KV {
    fn clone(&self) -> (r: Self)
        ensures
            r.key@ == self.key@,
            r.value@ == self.value@,
    {
        KV { key: self.key.clone(), value: self.value.clone() }
    }
}

impl KV {
    /// The name of the field.
    pub fn key(&self) -> (r: &String)
        ensures
            r == &self.key,
    {
        &self.key
    }

    /// The text of the value.
    pub fn value(&self) -> (r: &String)
        ensures
            r == &self.value,
    {
        &self.value
    }
}

/// How often `c` stands among the first `n` characters of `s`.
pub open spec fn count_char(s: Seq<char>, c: char, n: int) -> nat
    decreases n,
{
    if n <= 0 || n > s.len() {
        0
    } else {
        count_char(s, c, n - 1) + if s[n - 1] == c {
            1nat
        } else {
            0nat
        }
    }
}

/// The place of the first `c` at or after `from`, or the length of `s` where
/// there is none.
pub open spec fn first_char(s: Seq<char>, c: char, from: int) -> int
    decreases s.len() - from,
{
    if from < 0 || from >= s.len() {
        s.len() as int
    } else if s[from] == c {
        from
    } else {
        first_char(s, c, from + 1)
    }
}

/// Whether `s` sets a field: it holds exactly one equals sign.
pub open spec fn is_key_value(s: Seq<char>) -> bool {
    count_char(s, '=', s.len() as int) == 1
}

/// The message for a text that sets no field.
pub open spec fn key_value_error(s: Seq<char>) -> Seq<char> {
    "Cannot parse as key-value: '"@ + s + "'"@
}

/// Reads `key=value`. The text must hold exactly one equals sign; the key is
/// what stands before it and the value what stands behind.
pub fn kv_value_parser(s: &str) -> (r: Result<KV, String>)
    ensures
        match r {
            Ok(kv) => {
                let i = first_char(s@, '=', 0);
                &&& is_key_value(s@)
                &&& 0 <= i < s@.len()
                &&& kv.key@ == s@.subrange(0, i)
                &&& kv.value@ == s@.subrange(i + 1, s@.len() as int)
            },
            Err(m) => !is_key_value(s@) && m@ == key_value_error(s@),
        },
{
    let chars = chars_of(s);
    let mut count: usize = 0;
    let mut first: usize = chars.len();
    let mut i: usize = 0;
    while i < chars.len()
        invariant
            i <= chars.len(),
            count == count_char(chars@, '=', i as int),
            count <= i,
            first <= chars.len(),
            count == 0 ==> first == chars.len(),
            count > 0 ==> first < i && first == first_char(chars@, '=', 0),
            count == 0 ==> first_char(chars@, '=', 0) == first_char(chars@, '=', i as int),
        decreases chars.len() - i,
    {
        if chars[i] == '=' {
            if count == 0 {
                first = i;
            }
            count += 1;
        }
        i += 1;
    }
    if count != 1 {
        let mut m: Vec<char> = Vec::new();
        push_str(&mut m, "Cannot parse as key-value: '");
        push_str(&mut m, s);
        push_str(&mut m, "'");
        assert(m@ =~= key_value_error(s@));
        Err(string_of(&m))
    } else {
        let key = slice_chars(&chars, 0, first);
        let value = slice_chars(&chars, first + 1, chars.len());
        Ok(KV { key: string_of(&key), value: string_of(&value) })
    }
}

/// Where the text of a fragment comes from.
#[derive(Debug)]
pub enum TextProvider {
    /// The standard input.
    Stdin,
    /// The file at a path.
    Path(String),
}

impl Clone for TextProvider {
    fn clone(&self) -> (r: Self)
        ensures
            match (self, r) {
                (TextProvider::Stdin, TextProvider::Stdin) => true,
                (TextProvider::Path(a), TextProvider::Path(b)) => a@ == b@,
                _ => false,
            },
    {
        match self {
            TextProvider::Stdin => TextProvider::Stdin,
            TextProvider::Path(p) => TextProvider::Path(p.clone()),
        }
    }
}

/// Reads the source of a fragment's text: a hyphen stands for the standard
/// input, anything else for a path, which must exist and lead to a file.
/// `exists` and `is_file` say what the file system holds at that path; for a
/// hyphen nobody looks at them.
pub fn text_provider_parser(s: &str, exists: bool, is_file: bool) -> (r: Result<
    TextProvider,
    String,
>)
    ensures
        match r {
            Ok(TextProvider::Stdin) => s@ == "-"@,
            Ok(TextProvider::Path(p)) => s@ != "-"@ && exists && is_file && p@ == s@,
            Err(m) => s@ != "-"@ && (if !exists {
                m@ == "Path does not exist: "@ + s@
            } else {
                !is_file && m@ == "Path is not a file: "@ + s@
            }),
        },
{
    if str_eq(s, "-") {
        return Ok(TextProvider::Stdin);
    }
    if !exists {
        let mut m: Vec<char> = Vec::new();
        push_str(&mut m, "Path does not exist: ");
        push_str(&mut m, s);
        return Err(string_of(&m));
    }
    if !is_file {
        let mut m: Vec<char> = Vec::new();
        push_str(&mut m, "Path is not a file: ");
        push_str(&mut m, s);
        return Err(string_of(&m));
    }
    Ok(TextProvider::Path(s.to_owned()))
}

/// Which version a release gets.
#[derive(Debug)]
pub enum VersionSpec {
    Patch,
    Minor,
    Major,
    /// The version given.
    Custom { custom: String },
}

/// How fragments are shown.
#[derive(Clone, Copy, Debug, PartialEq, Eq)]
pub enum ShowFormat {
    Text,
    Json,
}

/// Which fragments a query is about.
#[derive(Debug)]
pub enum Selector {
    /// The fragments that no release holds yet.
    Unreleased,
    /// The fragments of one version.
    Exact { exact: String },
    /// The fragments of the versions between two versions, both left out.
    Range { from: String, until: String },
}

/// The mathematical model of a selector.
pub ghost enum SelectorModel {
    Unreleased,
    Exact { exact: Seq<char> },
    Range { from: Seq<char>, until: Seq<char> },
}

impl View for Selector {
    type V = SelectorModel;

    open spec fn view(&self) -> SelectorModel {
        match self {
            Selector::Unreleased => SelectorModel::Unreleased,
            Selector::Exact { exact } => SelectorModel::Exact { exact: exact@ },
            Selector::Range { from, until } => SelectorModel::Range { from: from@, until: until@ },
        }
    }
}

impl Clone for Selector {
    fn clone(&self) -> (r: Self)
        ensures
            r@ == self@,
    {
        match self {
            Selector::Unreleased => Selector::Unreleased,
            Selector::Exact { exact } => Selector::Exact { exact: exact.clone() },
            Selector::Range { from, until } => Selector::Range {
                from: from.clone(),
                until: until.clone(),
            },
        }
    }
}

} // verus!
