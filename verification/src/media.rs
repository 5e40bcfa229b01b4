//! Media descriptors and the classifier that decides which of them are
//! mirrored.

use crate::text::starts_with;
use vstd::prelude::*;

verus! {

/// The kinds of attachment. Only documents are mirrored.
#[derive(Clone, Copy, Debug, PartialEq, Eq, Structural)]
pub enum MediaKind {
    Document,
    Photo,
    Other,
}

/// What is known of one attachment: enough to classify it, to ask for its
/// download and to name the local copy.
#[derive(Clone, Debug)]
pub struct MediaDescriptor {
    pub kind: MediaKind,
    pub mime_type: Option<String>,
    pub size: Option<i64>,
    pub name: Option<String>,
    /// The identifier of the message that carries the attachment; the
    /// download is requested by it.
    pub reference: i32,
}

/// A media descriptor as plain values.
pub struct MediaView {
    pub kind: MediaKind,
    pub mime_type: Option<Seq<char>>,
    pub size: Option<int>,
    pub name: Option<Seq<char>>,
    pub reference: int,
}

/// The view of an optional text.
pub open spec fn text_view(text: Option<String>) -> Option<Seq<char>> {
    match text {
        Some(t) => Some(t@),
        None => None,
    }
}

impl View for MediaDescriptor {
    type V = MediaView;

    open spec fn view(&self) -> MediaView {
        MediaView {
            kind: self.kind,
            mime_type: text_view(self.mime_type),
            size: match self.size {
                Some(n) => Some(n as int),
                None => None,
            },
            name: text_view(self.name),
            reference: self.reference as int,
        }
    }
}

/// The largest declared size, in bytes, that is still mirrored.
pub const SIZE_CEILING: i64 = 10_100_000;

/// The MIME class that is mirrored.
pub open spec fn image_class() -> Seq<char> {
    seq!['i', 'm', 'a', 'g', 'e']
}

/// Eligibility. The attachment is a document; its MIME type, where one is
/// declared, begins with `image`; its size, where one is declared, is at most
/// [`SIZE_CEILING`]. An undeclared MIME type or size excludes nothing.
pub open spec fn eligible(media: MediaView) -> bool {
    &&& media.kind == MediaKind::Document
    &&& (media.mime_type matches Some(mime) ==> image_class().is_prefix_of(mime))
    &&& (media.size matches Some(size) ==> size <= SIZE_CEILING)
}

/// Decides whether an attachment is mirrored: see [`eligible`]. The answer
/// depends on the descriptor's values alone.
pub fn is_eligible(media: &MediaDescriptor) -> (yes: bool)
    ensures
        yes == eligible(media@),
{
    match media.kind {
        MediaKind::Document => {},
        _ => {
            return false;
        },
    }
    let mime_ok: bool = match &media.mime_type {
        Some(mime) => {
            proof {
                reveal_strlit("image");
                assert("image"@ =~= image_class());
            }
            starts_with(mime.as_str(), "image")
        },
        None => true,
    };
    let size_ok: bool = match media.size {
        Some(size) => size <= SIZE_CEILING,
        None => true,
    };
    mime_ok && size_ok
}

/// Two descriptors with the same values are classified alike.
pub proof fn eligibility_depends_on_values_alone(a: MediaDescriptor, b: MediaDescriptor)
    requires
        a@ == b@,
    ensures
        eligible(a@) == eligible(b@),
{
}

/// The position of the last `c` in `s`, or -1 where there is none.
pub open spec fn last_index_of(s: Seq<char>, c: char) -> int
    decreases s.len(),
{
    if s.len() == 0 {
        -1
    } else if s.last() == c {
        s.len() - 1
    } else {
        last_index_of(s.drop_last(), c)
    }
}

/// The last component of a name read as a path: the text after the last
/// `/`, where trailing components that are empty or a single `.` are passed
/// over first.
pub open spec fn last_component(name: Seq<char>) -> Seq<char>
    decreases name.len(),
{
    let cut = last_index_of(name, '/');
    let tail = name.subrange(cut + 1, name.len() as int);
    if 0 <= cut < name.len() && (tail.len() == 0 || tail == seq!['.']) {
        last_component(name.subrange(0, cut))
    } else {
        tail
    }
}

/// The extension of a file name: what follows the last `.` of its last
/// component. A component without a `.`, one whose only `.` is its first
/// character, and the component `..` have none.
pub open spec fn extension_of(name: Seq<char>) -> Option<Seq<char>> {
    let base = last_component(name);
    let dot = last_index_of(base, '.');
    if dot <= 0 || base == seq!['.', '.'] {
        None
    } else {
        Some(base.subrange(dot + 1, base.len() as int))
    }
}

/// The extension that a descriptor's name gives: only a named document has one.
pub open spec fn media_extension(media: MediaView) -> Option<Seq<char>> {
    match media.name {
        Some(name) => if media.kind == MediaKind::Document {
            extension_of(name)
        } else {
            None
        },
        None => None,
    }
}

proof fn lemma_last_index_of(s: Seq<char>, c: char, at: int)
    requires
        -1 <= at < s.len(),
        at >= 0 ==> s[at] == c,
        forall|k: int| at < k < s.len() ==> s[k] != c,
    ensures
        last_index_of(s, c) == at,
    decreases s.len(),
{
    if s.len() > 0 && at < s.len() - 1 {
        let shorter = s.drop_last();
        assert(s[s.len() - 1] != c);
        lemma_last_index_of(shorter, c, at);
    }
}

fn last_index(text: &str, c: char) -> (at: Option<usize>)
    ensures
        match at {
            Some(i) => i == last_index_of(text@, c) && i < text@.len() && text@[i as int] == c,
            None => last_index_of(text@, c) == -1,
        },
{
    let mut i: usize = text.unicode_len();
    while i > 0
        invariant
            i <= text@.len(),
            forall|k: int| i <= k < text@.len() ==> text@[k] != c,
        decreases i,
    {
        i -= 1;
        if text.get_char(i) == c {
            proof {
                lemma_last_index_of(text@, c, i as int);
            }
            return Some(i);
        }
    }
    proof {
        lemma_last_index_of(text@, c, -1);
    }
    None
}

fn last_component_of(name: &str) -> (base: &str)
    ensures
        base@ == last_component(name@),
{
    let mut rest: &str = name;
    loop
        invariant
            last_component(rest@) == last_component(name@),
        decreases rest@.len(),
    {
        let n: usize = rest.unicode_len();
        match last_index(rest, '/') {
            Some(cut) => {
                let tail: &str = rest.substring_char(cut + 1, n);
                let len: usize = n - (cut + 1);
                if len == 0 || (len == 1 && tail.get_char(0) == '.') {
                    proof {
                        if len == 1 {
                            assert(tail@ =~= seq!['.']);
                        }
                    }
                    rest = rest.substring_char(0, cut);
                } else {
                    proof {
                        if tail@ == seq!['.'] {
                            assert(tail@.len() == 1);
                            assert(tail@[0] == '.');
                        }
                    }
                    return tail;
                }
            },
            None => {
                proof {
                    assert(rest@.subrange(0, n as int) =~= rest@);
                }
                return rest;
            },
        }
    }
}

fn extension_of_name(name: &str) -> (ext: Option<String>)
    ensures
        text_view(ext) == extension_of(name@),
{
    let base: &str = last_component_of(name);
    let len: usize = base.unicode_len();
    match last_index(base, '.') {
        Some(dot) => {
            if dot == 0 {
                return None;
            }
            if len == 2 && base.get_char(0) == '.' {
                proof {
                    assert(base@ =~= seq!['.', '.']);
                }
                return None;
            }
            proof {
                if base@ == seq!['.', '.'] {
                    assert(base@.len() == 2);
                    assert(base@[0] == '.');
                }
            }
            Some(String::from_str(base.substring_char(dot + 1, len)))
        },
        None => None,
    }
}

/// The extension of a document's file name, if it has one: see
/// [`media_extension`].
pub fn file_extension(media: &MediaDescriptor) -> (ext: Option<String>)
    ensures
        text_view(ext) == media_extension(media@),
{
    match media.kind {
        MediaKind::Document => {},
        _ => {
            return None;
        },
    }
    match &media.name {
        Some(name) => extension_of_name(name.as_str()),
        None => None,
    }
}

} // verus!
