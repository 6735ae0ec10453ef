//! Absolute paths: the bytes that name them to the system, and the text that
//! they are shown as.
//!
//! The paths are those of Unix systems. A path need not be text: where it is, its
//! bytes are the text in UTF-8; where it is not, whoever brings it says how it is
//! shown.
use vstd::prelude::*;
use vstd::utf8::{char_is_scalar, encode_scalar, encode_utf8, is_ascii_chars_encode_utf8};

verus! {

/// The byte that separates the components of a path.
pub const SEPARATOR: u8 = 47;

/// An absolute path: components separated by `/`, the first of which follows
/// the leading `/`.
#[derive(Debug, PartialEq, Eq)]
pub struct AbsolutePath {
    native: Vec<u8>,
    shown: String,
}

/// What an absolute path is made of.
#[verifier::ext_equal]
pub struct PathView {
    /// What names the path to the system.
    pub native: Seq<u8>,
    /// What the path is shown as.
    pub shown: Seq<char>,
}

/// The path is not absolute.
#[derive(Debug, PartialEq, Eq)]
pub struct NotAbsolute;

/// Whether a text names an absolute path.
pub open spec fn is_absolute(text: Seq<char>) -> bool {
    text.len() > 0 && text[0] == '/'
}

/// Whether bytes name an absolute path.
pub open spec fn is_absolute_native(native: Seq<u8>) -> bool {
    native.len() > 0 && native[0] == SEPARATOR
}

/// The path that a text names.
pub open spec fn path_of(text: Seq<char>) -> PathView {
    PathView { native: encode_utf8(text), shown: text }
}

/// Whether a text can be the name of an entry of a directory.
pub open spec fn is_entry_name(name: Seq<char>) -> bool {
    &&& name.len() > 0
    &&& forall|i: int| 0 <= i < name.len() ==> #[trigger] name[i] != '/'
}

/// What `name` names from within `base`: `name` itself when it is absolute,
/// else `base`, a separator where `base` does not end with one, and `name`.
pub open spec fn joined(base: PathView, name: Seq<char>) -> PathView {
    if is_absolute(name) {
        path_of(name)
    } else if base.native.len() > 0 && base.native.last() == SEPARATOR {
        PathView { native: base.native + encode_utf8(name), shown: base.shown + name }
    } else {
        PathView {
            native: base.native + seq![SEPARATOR] + encode_utf8(name),
            shown: base.shown + seq!['/'] + name,
        }
    }
}

/// Whether one path is that of a directory which the other one lies in, at any
/// depth: the other goes on from it behind a separator.
pub open spec fn lies_above(dir: Seq<u8>, path: Seq<u8>) -> bool {
    &&& 0 < dir.len() < path.len()
    &&& dir == path.take(dir.len() as int)
    &&& dir.last() == SEPARATOR || path[dir.len() as int] == SEPARATOR
}

impl View for AbsolutePath {
    type V = PathView;

    closed spec fn view(&self) -> PathView {
        PathView { native: self.native@, shown: self.shown@ }
    }
}

impl Clone for AbsolutePath {
    fn clone(&self) -> (copy: Self)
        ensures
            copy@ == self@,
    {
        proof {
            use_type_invariant(self);
        }
        let native: Vec<u8> = self.native.clone();
        proof {
            assert(native@ =~= self.native@);
        }
        AbsolutePath { native, shown: self.shown.clone() }
    }
}

impl AbsolutePath {
    #[verifier::type_invariant]
    spec fn absolute(&self) -> bool {
        is_absolute_native(self.native@)
    }

    /// The path that `text` names, if it is absolute.
    pub fn from_absolute_path(text: &str) -> (path: Result<AbsolutePath, NotAbsolute>)
        ensures
            path is Ok <==> is_absolute(text@),
            path matches Ok(p) ==> p@ == path_of(text@),
    {
        if text.unicode_len() > 0 && text.get_char(0) == '/' {
            proof {
                lemma_absolute_text(text@);
            }
            Ok(AbsolutePath { native: text.as_bytes_vec(), shown: text.to_owned() })
        } else {
            Err(NotAbsolute)
        }
    }

    /// The path that bytes name, if it is absolute, with the text that it is
    /// shown as.
    pub fn from_native(native: Vec<u8>, shown: String) -> (path: Result<AbsolutePath, NotAbsolute>)
        ensures
            path is Ok <==> is_absolute_native(native@),
            path matches Ok(p) ==> p@ == (PathView { native: native@, shown: shown@ }),
    {
        if native.len() > 0 && native[0] == SEPARATOR {
            Ok(AbsolutePath { native, shown })
        } else {
            Err(NotAbsolute)
        }
    }

    /// The path of `name` from within this one. The components `.` and `..` stand
    /// as they are.
    pub fn join(&self, name: &str) -> (path: AbsolutePath)
        ensures
            path@ == joined(self@, name@),
    {
        proof {
            use_type_invariant(self);
        }
        if name.unicode_len() > 0 && name.get_char(0) == '/' {
            proof {
                lemma_absolute_text(name@);
            }
            return AbsolutePath { native: name.as_bytes_vec(), shown: name.to_owned() };
        }
        let mut native: Vec<u8> = self.native.clone();
        proof {
            assert(native@ =~= self.native@);
        }
        let mut shown: String = self.shown.clone();
        if native[native.len() - 1] != SEPARATOR {
            native.push(SEPARATOR);
            shown.push('/');
        }
        let mut name_bytes: Vec<u8> = name.as_bytes_vec();
        native.append(&mut name_bytes);
        shown.append(name);
        let path: AbsolutePath = AbsolutePath { native, shown };
        proof {
            assert(path@ =~= joined(self@, name@));
        }
        path
    }

    /// What names the path to the system.
    pub fn native(&self) -> (native: &Vec<u8>)
        ensures
            native@ == self@.native,
            is_absolute_native(native@),
    {
        proof {
            use_type_invariant(self);
        }
        &self.native
    }

    /// The text that the path is shown as.
    pub fn as_str(&self) -> (text: &str)
        ensures
            text@ == self@.shown,
    {
        self.shown.as_str()
    }
}

/// A text that names an absolute path does so in its bytes.
proof fn lemma_absolute_text(text: Seq<char>)
    requires
        is_absolute(text),
    ensures
        is_absolute_native(encode_utf8(text)),
{
    let first = seq!['/'];
    is_ascii_chars_encode_utf8(first);
    assert(first[0] == '/');
    assert(first.drop_first() =~= seq![]);
    reveal_with_fuel(encode_utf8, 2);
    assert(encode_utf8(first) =~= encode_scalar('/' as u32));
}

/// What a relative name names from within a path starts with that path and ends
/// with the name.
pub proof fn law_relative_names_stay_within(base: PathView, name: Seq<char>)
    requires
        !is_absolute(name),
    ensures
        base.native.is_prefix_of(joined(base, name).native),
        base.shown.is_prefix_of(joined(base, name).shown),
        encode_utf8(name).is_suffix_of(joined(base, name).native),
        name.is_suffix_of(joined(base, name).shown),
{
    let path = joined(base, name);
    let bytes = encode_utf8(name);
    assert(path.native.subrange(0, base.native.len() as int) =~= base.native);
    assert(path.shown.subrange(0, base.shown.len() as int) =~= base.shown);
    assert(path.native.subrange(path.native.len() - bytes.len(), path.native.len() as int)
        =~= bytes);
    assert(path.shown.subrange(path.shown.len() - name.len(), path.shown.len() as int) =~= name);
}

/// A text that is not empty has bytes.
proof fn lemma_text_has_bytes(text: Seq<char>)
    requires
        text.len() > 0,
    ensures
        encode_utf8(text).len() > 0,
{
    char_is_scalar(text[0]);
    assert(encode_scalar(text[0] as u32).len() > 0);
}

/// A path lies above what a relative name that is not empty names from within it.
pub proof fn law_a_path_lies_above_what_is_in_it(base: PathView, name: Seq<char>)
    requires
        base.native.len() > 0,
        !is_absolute(name),
        name.len() > 0,
    ensures
        lies_above(base.native, joined(base, name).native),
{
    lemma_text_has_bytes(name);
    let path = joined(base, name).native;
    assert(path.take(base.native.len() as int) =~= base.native);
}

/// A relative name is put behind the path whole, with exactly one separator in
/// between: that which the path ends with, or one that is added. An absolute name
/// takes the place of the path. A text names the path that it shows, by its bytes.
pub proof fn law_joining_puts_one_separator(base: PathView, name: Seq<char>)
    requires
        base.native.len() > 0,
    ensures
        path_of(name).shown == name,
        path_of(name).native == encode_utf8(name),
        name.len() > 0 && name[0] == '/' ==> joined(base, name) == path_of(name),
        name.len() == 0 || name[0] != '/' ==> {
            let path = joined(base, name);
            let kept = base.native.last() == 47;
            let added: int = if kept {
                0
            } else {
                1
            };
            let bytes = encode_utf8(name);
            &&& path.native.len() == base.native.len() + added + bytes.len()
            &&& path.shown.len() == base.shown.len() + added + name.len()
            &&& path.native.take(base.native.len() as int) == base.native
            &&& path.shown.take(base.shown.len() as int) == base.shown
            &&& !kept ==> path.native[base.native.len() as int] == 47
                && path.shown[base.shown.len() as int] == '/'
            &&& path.native.skip(base.native.len() + added) == bytes
            &&& path.shown.skip(base.shown.len() + added) == name
        },
{
    if name.len() == 0 || name[0] != '/' {
        let path = joined(base, name);
        let added: int = if base.native.last() == 47 {
            0
        } else {
            1
        };
        assert(path.native.take(base.native.len() as int) =~= base.native);
        assert(path.shown.take(base.shown.len() as int) =~= base.shown);
        assert(path.native.skip(base.native.len() + added) =~= encode_utf8(name));
        assert(path.shown.skip(base.shown.len() + added) =~= name);
    }
}

/// A path is absolute exactly where it starts with a slash, be it given as text or
/// as bytes.
pub proof fn law_absolute_paths_start_with_a_slash(text: Seq<char>, native: Seq<u8>)
    ensures
        is_absolute(text) <==> text.len() > 0 && text[0] == '/',
        is_absolute_native(native) <==> native.len() > 0 && native[0] == 47,
        is_absolute(text) ==> is_absolute_native(encode_utf8(text)),
{
    if is_absolute(text) {
        lemma_absolute_text(text);
    }
}

} // verus!
