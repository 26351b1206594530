//! One part of a multipart body, as its headers declare it, and what the
//! server makes of it.

use vstd::prelude::*;
use vstd::std_specs::iter::IteratorSpec;

verus! {

broadcast use vstd::string::group_string_axioms;

/// A character that no file name may hold: one that parts a path into
/// components, or ends a name early.
pub open spec fn is_path_char(c: char) -> bool {
    c == '/' || c == '\\' || c == '\0'
}

/// A name that stands for exactly one entry of a directory: not empty,
/// neither `.` nor `..`, and free of characters that part a path.
pub open spec fn is_file_name(s: Seq<char>) -> bool {
    &&& s.len() > 0
    &&& s != seq!['.']
    &&& s != seq!['.', '.']
    &&& no_path_char(s)
}

/// Whether every character of `s` is a dot.
pub open spec fn only_dots(s: Seq<char>) -> bool {
    forall|i: int| 0 <= i < s.len() ==> s[i] == '.'
}

/// Whether no character of `s` parts a path.
pub open spec fn no_path_char(s: Seq<char>) -> bool {
    forall|i: int| 0 <= i < s.len() ==> !is_path_char(#[trigger] s[i])
}

proof fn lemma_push_scan(s: Seq<char>, c: char)
    ensures
        only_dots(s.push(c)) == (only_dots(s) && c == '.'),
        no_path_char(s.push(c)) == (no_path_char(s) && !is_path_char(c)),
{
    let t = s.push(c);
    assert(t[s.len() as int] == c);
    assert forall|i: int| 0 <= i < s.len() implies s[i] == t[i] by {}
    if only_dots(t) {
        assert forall|i: int| 0 <= i < s.len() implies s[i] == '.' by {
            assert(t[i] == '.');
        }
    }
    if no_path_char(t) {
        assert forall|i: int| 0 <= i < s.len() implies !is_path_char(#[trigger] s[i]) by {
            assert(!is_path_char(t[i]));
        }
    }
}

/// Whether `s` names exactly one entry of a directory.
pub fn check_file_name(s: &str) -> (ok: bool)
    ensures
        ok == is_file_name(s@),
{
    let mut it = s.chars();
    let ghost mut seen: Seq<char> = Seq::empty();
    let mut count: u8 = 0;
    let mut dots: bool = true;
    loop
        invariant_except_break
            it.obeys_prophetic_iter_laws(),
            it.decrease() is Some,
            seen + it.remaining() == s@,
        invariant
            count as int == if seen.len() < 3 { seen.len() as int } else { 3 },
            dots == only_dots(seen),
            no_path_char(seen),
        ensures
            seen == s@,
        decreases it.decrease()->0,
    {
        let ghost before = it;
        match it.next() {
            None => {
                proof {
                    assert(seen =~= s@);
                }
                break;
            },
            Some(c) => {
                proof {
                    assert(before.remaining() =~= seq![c] + it.remaining());
                    assert(seen.push(c) + it.remaining() =~= s@);
                    assert(s@[seen.len() as int] == c);
                    lemma_push_scan(seen, c);
                }
                if c == '/' || c == '\\' || c == '\0' {
                    return false;
                }
                if count < 3 {
                    count = count + 1;
                }
                if c != '.' {
                    dots = false;
                }
                proof {
                    seen = seen.push(c);
                }
            },
        }
    }
    proof {
        if dots && count == 1 {
            assert(s@[0] == '.');
            assert(s@ =~= seq!['.']);
        }
        if dots && count == 2 {
            assert(s@[0] == '.' && s@[1] == '.');
            assert(s@ =~= seq!['.', '.']);
        }
        if s@ == seq!['.'] || s@ == seq!['.', '.'] {
            assert(only_dots(s@));
        }
    }
    count > 0 && !(dots && count < 3)
}

/// The view of an optional string: its characters, where there is one.
pub open spec fn text_view(text: Option<String>) -> Option<Seq<char>> {
    match text {
        Some(s) => Some(s@),
        None => None,
    }
}

/// What the headers of one part declare. Each of the three may be absent
/// from the wire.
#[derive(Clone, Debug, PartialEq, Eq)]
pub struct FieldHeader {
    /// The name of the form field.
    pub name: Option<String>,
    /// The name of the file that the part carries.
    pub file_name: Option<String>,
    /// The content type that the sender gives the payload.
    pub content_type: Option<String>,
}

/// A [`FieldHeader`] as contracts see it.
pub struct FieldHeaderView {
    pub name: Option<Seq<char>>,
    pub file_name: Option<Seq<char>>,
    pub content_type: Option<Seq<char>>,
}

impl View for FieldHeader {
    type V = FieldHeaderView;

    open spec fn view(&self) -> FieldHeaderView {
        FieldHeaderView {
            name: text_view(self.name),
            file_name: text_view(self.file_name),
            content_type: text_view(self.content_type),
        }
    }
}

/// What the server does with a part.
#[derive(Clone, Copy, Debug, PartialEq, Eq, Structural)]
pub enum FieldKind {
    /// The part breaks the protocol, and the request with it.
    Malformed,
    /// A form field without a file: it is read to its end, counted against
    /// the ceiling and recorded, and nothing is written for it.
    Plain,
    /// A file to store.
    File,
}

impl FieldHeaderView {
    /// The kind of a part, from what it declares. A part without a name is
    /// malformed. A named part without a file name is a plain form field. A
    /// named part with a file name is a file, provided that the file name
    /// stands for one entry of a directory and that a content type is
    /// declared; otherwise it is malformed.
    pub open spec fn kind(self) -> FieldKind {
        if self.name is None {
            FieldKind::Malformed
        } else {
            match self.file_name {
                None => FieldKind::Plain,
                Some(file_name) => if is_file_name(file_name) && self.content_type is Some {
                    FieldKind::File
                } else {
                    FieldKind::Malformed
                },
            }
        }
    }
}

impl FieldHeader {
    /// The kind of this part.
    pub fn kind(&self) -> (kind: FieldKind)
        ensures
            kind == self@.kind(),
    {
        if self.name.is_none() {
            return FieldKind::Malformed;
        }
        match &self.file_name {
            None => FieldKind::Plain,
            Some(file_name) => {
                if check_file_name(file_name.as_str()) && self.content_type.is_some() {
                    FieldKind::File
                } else {
                    FieldKind::Malformed
                }
            },
        }
    }
}

} // verus!
