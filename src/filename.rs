//! Names of files inside a workspace: the sanitized name of an upload.

use vstd::prelude::*;

verus! {

/// The name given to an upload whose client-supplied name has no usable
/// final segment.
pub open spec fn default_name() -> Seq<char> {
    "document"@
}

/// A path segment that names a file by itself: not empty and not `.`.
pub open spec fn names_something(seg: Seq<char>) -> bool {
    seg.len() > 0 && seg != seq!['.']
}

/// No `/` occurs in `s`.
pub open spec fn has_no_separator(s: Seq<char>) -> bool {
    forall|k: int| 0 <= k < s.len() ==> s[k] != '/'
}

/// Scanning `s` backwards from position `i`, where `s[i..seg_end]` is the
/// part of the current segment seen so far: the last segment of `s[0..seg_end]`
/// that names something, if there is one.
pub open spec fn last_named_segment(s: Seq<char>, i: int, seg_end: int) -> Option<Seq<char>>
    decreases i,
{
    if i <= 0 {
        if names_something(s.subrange(0, seg_end)) {
            Some(s.subrange(0, seg_end))
        } else {
            None
        }
    } else if s[i - 1] == '/' {
        if names_something(s.subrange(i, seg_end)) {
            Some(s.subrange(i, seg_end))
        } else {
            last_named_segment(s, i - 1, i - 1)
        }
    } else {
        last_named_segment(s, i - 1, seg_end)
    }
}

/// The final component of the path `s`, read as a Unix path: empty segments
/// and `.` segments are skipped, and a final `..` names no file.
pub open spec fn final_component(s: Seq<char>) -> Option<Seq<char>> {
    match last_named_segment(s, s.len() as int, s.len() as int) {
        Some(seg) => if seg == seq!['.', '.'] {
            None
        } else {
            Some(seg)
        },
        None => None,
    }
}

/// The on-disk name of an upload whose client gave the name `raw`.
pub open spec fn sanitized(raw: Seq<char>) -> Seq<char> {
    match final_component(raw) {
        Some(name) => name,
        None => default_name(),
    }
}

/// A name that stays inside the directory it is joined to: not empty, no `/`,
/// and neither `.` nor `..`.
pub open spec fn is_plain_name(name: Seq<char>) -> bool {
    &&& name.len() > 0
    &&& has_no_separator(name)
    &&& name != seq!['.']
    &&& name != seq!['.', '.']
}

proof fn lemma_last_named_segment_plain(s: Seq<char>, i: int, seg_end: int)
    requires
        0 <= i <= seg_end <= s.len(),
        forall|k: int| i <= k < seg_end ==> s[k] != '/',
    ensures
        last_named_segment(s, i, seg_end) matches Some(seg) ==> names_something(seg)
            && has_no_separator(seg),
    decreases i,
{
    if i <= 0 {
    } else if s[i - 1] == '/' {
        if !names_something(s.subrange(i, seg_end)) {
            lemma_last_named_segment_plain(s, i - 1, i - 1);
        }
    } else {
        lemma_last_named_segment_plain(s, i - 1, seg_end);
    }
}

/// Whatever name a client sends, the sanitized name is not empty, holds no
/// path separator and is neither `.` nor `..`: joined to a directory, it names
/// an entry of that directory.
pub proof fn lemma_sanitized_is_plain(raw: Seq<char>)
    ensures
        is_plain_name(sanitized(raw)),
{
    reveal_strlit("document");
    lemma_last_named_segment_plain(raw, raw.len() as int, raw.len() as int);
    assert(default_name() != seq!['.']) by {
        assert(default_name().len() == 8);
    }
    assert(default_name() != seq!['.', '.']) by {
        assert(default_name().len() == 8);
    }
}

/// Whether `s[from..to]` names something.
fn segment_names_something(s: &str, from: usize, to: usize) -> (r: bool)
    requires
        from <= to <= s@.len(),
    ensures
        r == names_something(s@.subrange(from as int, to as int)),
{
    if from == to {
        return false;
    }
    let first = s.get_char(from);
    let ghost seg = s@.subrange(from as int, to as int);
    assert(seg.len() == to - from && seg[0] == first);
    if to - from == 1 && first == '.' {
        assert(seg =~= seq!['.']);
        return false;
    }
    assert(seg != seq!['.']) by {
        if seg == seq!['.'] {
            assert(seg.len() == 1 && seg[0] == '.');
        }
    }
    true
}

/// The name under which an upload is stored: the final segment of the name
/// the client sent, or `document` where that segment is missing or unusable.
pub fn sanitize_filename(raw: &str) -> (r: String)
    ensures
        r@ == sanitized(raw@),
{
    let n = raw.unicode_len();
    let mut i: usize = n;
    let mut seg_end: usize = n;
    let mut found: Option<(usize, usize)> = None;
    loop
        invariant_except_break
            0 <= i <= seg_end <= n,
            n == raw@.len(),
            found is None,
            last_named_segment(raw@, i as int, seg_end as int) == last_named_segment(
                raw@,
                n as int,
                n as int,
            ),
        ensures
            n == raw@.len(),
            match found {
                Some((a, b)) => a <= b <= n && last_named_segment(raw@, n as int, n as int)
                    == Some(raw@.subrange(a as int, b as int)),
                None => last_named_segment(raw@, n as int, n as int) is None,
            },
        decreases i,
    {
        if i == 0 {
            if segment_names_something(raw, 0, seg_end) {
                found = Some((0, seg_end));
            }
            break;
        }
        if raw.get_char(i - 1) == '/' {
            if segment_names_something(raw, i, seg_end) {
                found = Some((i, seg_end));
                break;
            }
            seg_end = i - 1;
        }
        i = i - 1;
    }
    match found {
        Some((a, b)) => {
            let is_parent = b - a == 2 && raw.get_char(a) == '.' && raw.get_char(a + 1) == '.';
            proof {
                let seg = raw@.subrange(a as int, b as int);
                if is_parent {
                    assert(seg =~= seq!['.', '.']);
                } else if seg == seq!['.', '.'] {
                    assert(seg.len() == 2);
                    assert(b - a == 2);
                    assert(seg[0] == raw@[a as int]);
                    assert(seg[1] == raw@[a + 1]);
                }
            }
            if is_parent {
                String::from_str("document")
            } else {
                String::from_str(raw.substring_char(a, b))
            }
        },
        None => String::from_str("document"),
    }
}

/// The name of the multipart field that carries the upload.
pub open spec fn upload_field() -> Seq<char> {
    "file"@
}

/// Whether a multipart field with the name `name` (if it has one) carries the
/// upload. The caller stores the first such field and ignores the rest.
pub fn is_upload_field(name: Option<&str>) -> (r: bool)
    ensures
        r == (name matches Some(n) && n@ == upload_field()),
{
    match name {
        Some(n) => String::from_str(n) == String::from_str("file"),
        None => false,
    }
}

} // verus!
