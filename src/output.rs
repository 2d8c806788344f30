//! The produced document: finding it among a workspace's entries, and the
//! headers it is sent back with.

use vstd::prelude::*;

verus! {

/// Whether a directory entry named `name` has the extension `pdf`: the text
/// after its last `.` is `pdf`, and the text before that dot is not empty.
pub open spec fn is_pdf_name(name: Seq<char>) -> bool {
    name.len() > 4 && name.subrange(name.len() - 4, name.len() as int) == ".pdf"@
}

/// Whether the entry name `name` has the extension `pdf`.
pub fn has_pdf_extension(name: &str) -> (r: bool)
    ensures
        r == is_pdf_name(name@),
{
    proof {
        reveal_strlit(".pdf");
    }
    let n = name.unicode_len();
    if n <= 4 {
        return false;
    }
    let r = name.get_char(n - 4) == '.' && name.get_char(n - 3) == 'p' && name.get_char(n - 2)
        == 'd' && name.get_char(n - 1) == 'f';
    proof {
        let tail = name@.subrange(n - 4, n as int);
        if r {
            assert(tail =~= ".pdf"@);
        } else if tail == ".pdf"@ {
            assert(tail[0] == name@[n - 4]);
            assert(tail[1] == name@[n - 3]);
            assert(tail[2] == name@[n - 2]);
            assert(tail[3] == name@[n - 1]);
        }
    }
    r
}

/// The first of the workspace entries `names`, in the order they were listed,
/// that has the extension `pdf`.
pub fn find_pdf(names: &Vec<String>) -> (r: Option<usize>)
    ensures
        match r {
            Some(i) => i < names.len() && is_pdf_name(names[i as int]@) && forall|j: int|
                0 <= j < i ==> !is_pdf_name(#[trigger] names[j]@),
            None => forall|j: int| 0 <= j < names.len() ==> !is_pdf_name(#[trigger] names[j]@),
        },
{
    let mut i: usize = 0;
    while i < names.len()
        invariant
            i <= names.len(),
            forall|j: int| 0 <= j < i ==> !is_pdf_name(#[trigger] names[j]@),
        decreases names.len() - i,
    {
        if has_pdf_extension(names[i].as_str()) {
            return Some(i);
        }
        i = i + 1;
    }
    None
}

/// Whether `c` must be escaped inside a quoted string: a double quote or a
/// backslash.
pub open spec fn needs_escape(c: char) -> bool {
    c == '"' || c == '\\'
}

/// The character `c` as it stands inside a quoted string.
pub open spec fn escaped_char(c: char) -> Seq<char> {
    if needs_escape(c) {
        seq!['\\', c]
    } else {
        seq![c]
    }
}

/// `name` with a backslash put before each double quote and each backslash.
pub open spec fn escaped(name: Seq<char>) -> Seq<char>
    decreases name.len(),
{
    if name.len() == 0 {
        Seq::empty()
    } else {
        escaped(name.drop_last()) + escaped_char(name.last())
    }
}

/// The value of the `Content-Disposition` header that sends a file named `name`.
pub open spec fn disposition_of(name: Seq<char>) -> Seq<char> {
    "attachment; filename=\""@ + escaped(name) + "\""@
}

/// Reading `s`, the text that follows the opening quote of a quoted string,
/// by the quoted-string rules of HTTP: a backslash takes the next character
/// literally, and the first quote no backslash takes ends the string. The
/// text read and the position of that closing quote in `s`, if there is one.
pub open spec fn read_quoted(s: Seq<char>) -> Option<(Seq<char>, int)>
    decreases s.len(),
{
    if s.len() == 0 {
        None
    } else if s[0] == '"' {
        Some((Seq::empty(), 0))
    } else if s[0] == '\\' {
        if s.len() < 2 {
            None
        } else {
            match read_quoted(s.subrange(2, s.len() as int)) {
                Some((text, end)) => Some((seq![s[1]] + text, end + 2)),
                None => None,
            }
        }
    } else {
        match read_quoted(s.drop_first()) {
            Some((text, end)) => Some((seq![s[0]] + text, end + 1)),
            None => None,
        }
    }
}

/// `name` with each double quote and each backslash escaped by a backslash.
pub fn escape_quoted_string(name: &str) -> (r: String)
    ensures
        r@ == escaped(name@),
{
    let n = name.unicode_len();
    let mut out = String::new();
    let mut i: usize = 0;
    while i < n
        invariant
            i <= n,
            n == name@.len(),
            out@ == escaped(name@.subrange(0, i as int)),
        decreases n - i,
    {
        let ghost before = name@.subrange(0, i as int);
        let ghost upto = name@.subrange(0, i + 1);
        assert(upto.drop_last() =~= before);
        assert(upto.last() == name@[i as int]);
        let c = name.get_char(i);
        let one = name.substring_char(i, i + 1);
        assert(one@ =~= seq![c]);
        if c == '"' || c == '\\' {
            out.append("\\");
            proof {
                reveal_strlit("\\");
                assert("\\"@[0] == '\\');
            }
            assert("\\"@ =~= seq!['\\']);
        }
        out.append(one);
        i = i + 1;
        assert(out@ =~= escaped(upto));
    }
    assert(name@.subrange(0, n as int) =~= name@);
    out
}

/// The `Content-Disposition` header value that sends the file named `name` as
/// an attachment under that name.
pub fn content_disposition(name: &str) -> (r: String)
    ensures
        r@ == disposition_of(name@),
{
    let mut out = String::from_str("attachment; filename=\"");
    let esc = escape_quoted_string(name);
    out.append(esc.as_str());
    out.append("\"");
    out
}

proof fn lemma_escaped_prepend(c: char, rest: Seq<char>)
    ensures
        escaped(seq![c] + rest) == escaped_char(c) + escaped(rest),
    decreases rest.len(),
{
    let s = seq![c] + rest;
    if rest.len() == 0 {
        assert(s.drop_last() =~= Seq::<char>::empty());
        assert(s.last() == c);
        assert(escaped(s.drop_last()) =~= Seq::<char>::empty());
        assert(escaped(s) =~= escaped_char(c));
        assert(escaped(rest) =~= Seq::<char>::empty());
    } else {
        lemma_escaped_prepend(c, rest.drop_last());
        assert(s.drop_last() =~= seq![c] + rest.drop_last());
        assert(s.last() == rest.last());
        assert(escaped(s) =~= escaped_char(c) + escaped(rest));
    }
}

proof fn lemma_read_escaped(name: Seq<char>)
    ensures
        read_quoted(escaped(name) + seq!['"']) == Some((name, escaped(name).len() as int)),
    decreases name.len(),
{
    let s = escaped(name) + seq!['"'];
    if name.len() == 0 {
        assert(escaped(name) =~= Seq::<char>::empty());
        assert(s =~= seq!['"']);
    } else {
        let c = name[0];
        let rest = name.drop_first();
        assert(name =~= seq![c] + rest);
        lemma_escaped_prepend(c, rest);
        lemma_read_escaped(rest);
        let tail = escaped(rest) + seq!['"'];
        if needs_escape(c) {
            assert(s =~= seq!['\\', c] + tail);
            assert(s.subrange(2, s.len() as int) =~= tail);
        } else {
            assert(s =~= seq![c] + tail);
            assert(s.drop_first() =~= tail);
        }
    }
}

/// Whatever the file's name, reading the `filename` parameter of its
/// `Content-Disposition` value as a quoted string gives back exactly that name,
/// and the string closes only at the value's last character: no character of
/// the name can end the parameter early.
pub proof fn lemma_disposition_unquotes(name: Seq<char>)
    ensures
        ({
            let d = disposition_of(name);
            let start = "attachment; filename=\""@.len() as int;
            &&& d.subrange(0, start) == "attachment; filename=\""@
            &&& read_quoted(d.subrange(start, d.len() as int)) == Some((name, d.len() - start - 1))
        }),
{
    reveal_strlit("\"");
    let p = "attachment; filename=\""@;
    let d = disposition_of(name);
    lemma_read_escaped(name);
    assert(d.subrange(0, p.len() as int) =~= p);
    assert(d.subrange(p.len() as int, d.len() as int) =~= escaped(name) + seq!['"']);
}

} // verus!
