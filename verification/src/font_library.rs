//! The imported-font library: which files may be imported, how an imported
//! font is named and identified, and how the library list is kept in step
//! with what is on disk.
//!
//! Reading and writing the library file, copying fonts and asking the disk
//! whether a file exists are done by the caller; this module decides what
//! to do with the answers.
use vstd::prelude::*;
use crate::text::{
    is_unicode_whitespace,
    lemma_digits_injective, lemma_digits_nonempty, lemma_quotient_smaller,
    append_digits, ascii_alnum, ascii_lower, blank, decimal, is_ascii_alnum, is_blank, push_char,
    str_equal, to_ascii_lower,
};

verus! {

/// One font the user has imported into the library.
#[derive(Clone, Debug)]
pub struct ImportedFont {
    pub id: String,
    pub name: String,
    pub family: String,
    pub path: String,
    pub format: String,
}

/// Why a font-library operation was refused.
#[derive(Clone, Copy, Debug, PartialEq, Eq, Structural)]
pub enum FontLibraryError {
    /// The chosen file does not have one of the supported extensions.
    UnsupportedExtension,
    /// The chosen file is not a regular file on disk.
    MissingFile,
    /// No font in the library has the requested id.
    FontNotFound,
    /// The font's file lies outside the library's own directory.
    OutsideLibrary,
}

/// The name of the file, inside the font directory, that lists the library.
pub open spec fn library_file_name() -> Seq<char> {
    "font-library.json"@
}

// ---------------------------------------------------------------------
// Paths
// ---------------------------------------------------------------------

/// A single path component that `Path::join` appends as it is: not empty,
/// not `.` or `..`, and free of separators and drive markers.
pub open spec fn is_plain_file_name(name: Seq<char>) -> bool {
    &&& name.len() > 0
    &&& name != seq!['.']
    &&& name != seq!['.', '.']
    &&& plain_chars(name)
}

/// No character of `s` separates path components or marks a drive.
pub open spec fn plain_chars(s: Seq<char>) -> bool
    decreases s.len(),
{
    if s.len() == 0 {
        true
    } else {
        let c = s.last();
        c != '/' && c != '\\' && c != ':' && plain_chars(s.drop_last())
    }
}

/// Whether `piece` occurs in `whole` as a contiguous run of characters.
pub open spec fn occurs_in(piece: Seq<char>, whole: Seq<char>) -> bool {
    exists|k: int| 0 <= k && k + piece.len() <= whole.len() && #[trigger] whole.subrange(k, k + piece.len()) == piece
}

pub open spec fn has_no(s: Seq<char>, c: char) -> bool {
    forall|i: int| 0 <= i < s.len() ==> #[trigger] s[i] != c
}

/// The index of the last `c` in `s`, or -1 when there is none.
pub open spec fn last_index_of(s: Seq<char>, c: char) -> int
    decreases s.len(),
{
    if s.len() == 0 {
        -1
    } else if s.last() == c {
        s.len() - 1
    } else {
        last_index_of(s.drop_last(), c)
    }
}

/// The text after the last `/` (all of `path` when it has none).
pub open spec fn final_segment(path: Seq<char>) -> Seq<char> {
    path.subrange(last_index_of(path, '/') + 1, path.len() as int)
}

/// `path` split at every `/`.
pub open spec fn split_at_slashes(path: Seq<char>) -> Seq<Seq<char>>
    decreases path.len(),
{
    let k = last_index_of(path, '/');
    if k < 0 || k >= path.len() {
        seq![path]
    } else {
        split_at_slashes(path.subrange(0, k)).push(path.subrange(k + 1, path.len() as int))
    }
}

/// Whether `path` starts at the root (`/`).
pub open spec fn is_rooted(path: Seq<char>) -> bool {
    path.len() > 0 && path[0] == '/'
}

/// The names of the components of `path` after its root, if any.
pub open spec fn segments(path: Seq<char>) -> Seq<Seq<char>> {
    if is_rooted(path) {
        split_at_slashes(path.drop_first())
    } else {
        split_at_slashes(path)
    }
}

/// A path that every platform splits into the same components: an optional
/// leading `/`, then plain names separated by single `/`s. It has no `\`,
/// no `:` and no empty, `.` or `..` component, so it holds no Windows
/// prefix and nothing that component parsing would normalize.
pub open spec fn is_simple_path(path: Seq<char>) -> bool {
    forall|i: int|
        0 <= i < segments(path).len() ==> is_plain_file_name(#[trigger] segments(path)[i])
}

/// Whether `a` is an initial part of `b`.
pub open spec fn is_prefix(a: Seq<Seq<char>>, b: Seq<Seq<char>>) -> bool {
    a.len() <= b.len() && b.subrange(0, a.len() as int) == a
}

/// A path whose last component is the plain name after its last `/` on
/// every platform: no `\` (so no verbatim or device prefix), not starting
/// with two `/`s (so no network share), and a plain name at the end. A
/// drive such as `C:` may start the path: it is a prefix of its own and
/// leaves the last component as it is.
pub open spec fn ends_in_plain_name(path: Seq<char>) -> bool {
    &&& has_no(path, '\\')
    &&& !(path.len() >= 2 && path[0] == '/' && path[1] == '/')
    &&& is_plain_file_name(final_segment(path))
}

/// The extension of a file name: what follows its last `.`, unless it has
/// no `.` or its only `.` starts the name.
pub open spec fn name_extension(name: Seq<char>) -> Option<Seq<char>> {
    let k = last_index_of(name, '.');
    if k <= 0 {
        None
    } else {
        Some(name.subrange(k + 1, name.len() as int))
    }
}

/// Whether `c` separates path components on some platform: `/` does on
/// every platform, `\` on Windows.
pub open spec fn is_separator(c: char) -> bool {
    c == '/' || c == '\\'
}

/// The text after the last `/` or `\` (all of `path` when it has neither):
/// the last component on Windows, and the end of the last one elsewhere.
pub open spec fn last_component(path: Seq<char>) -> Seq<char> {
    let k = if last_index_of(path, '/') >= last_index_of(path, '\\') {
        last_index_of(path, '/')
    } else {
        last_index_of(path, '\\')
    };
    path.subrange(k + 1, path.len() as int)
}

/// Whether `path` starts with two separators, as Windows network shares,
/// device paths and verbatim paths do.
pub open spec fn starts_with_two_separators(path: Seq<char>) -> bool {
    path.len() >= 2 && is_separator(path[0]) && is_separator(path[1])
}

/// A path, in Windows or Unix form, that ends in a plain file name with an
/// extension: after its last separator comes a plain name whose last `.`
/// is not its first character. On every platform that `.` is then the last
/// `.` of the file name, so the extension is the name's, and the stem ends
/// with the name's stem. Paths starting with two separators are left out:
/// on Windows their prefix may take in the last name.
pub open spec fn ends_in_dotted_name(path: Seq<char>) -> bool {
    &&& !starts_with_two_separators(path)
    &&& is_plain_file_name(last_component(path))
    &&& name_extension(last_component(path)) is Some
}

/// Whether `s` ends with `t`.
pub open spec fn ends_with(s: Seq<char>, t: Seq<char>) -> bool {
    s.len() >= t.len() && s.subrange(s.len() - t.len(), s.len() as int) == t
}

/// A path that is `directory`, one `/`, then a plain file name, where the
/// directory is one that `Path` reads the same up to its end on every
/// platform: not empty, not ending in a separator or `:`, and not starting
/// with two separators (no network share, device or verbatim prefix).
pub open spec fn is_child_by_slash(path: Seq<char>, directory: Seq<char>) -> bool {
    &&& needs_separator(directory)
    &&& !starts_with_two_separators(directory)
    &&& path.len() > directory.len() + 1
    &&& path.subrange(0, directory.len() as int) == directory
    &&& path[directory.len() as int] == '/'
    &&& is_plain_file_name(path.subrange(directory.len() as int + 1, path.len() as int))
}

/// Whether `path` is a Windows verbatim path (it starts with `\\?\`), which
/// `Path::join` normalizes before appending.
pub open spec fn is_verbatim(path: Seq<char>) -> bool {
    path.len() >= 4 && path[0] == '\\' && path[1] == '\\' && path[2] == '?' && path[3] == '\\'
}

/// `joined` is `directory` followed by one separator and then `file`.
pub open spec fn is_joined_with_separator(joined: Seq<char>, directory: Seq<char>, file: Seq<char>) -> bool {
    ||| joined == directory + seq!['/'] + file
    ||| joined == directory + seq!['\\'] + file
}

/// Whether `join` needs a separator after `directory`: it is not empty and
/// does not already end in a separator or a drive's `:`.
pub open spec fn needs_separator(directory: Seq<char>) -> bool {
    &&& directory.len() > 0
    &&& directory.last() != '/'
    &&& directory.last() != '\\'
    &&& directory.last() != ':'
}

/// `joined` is `directory` followed by at most one separator and then `file`.
pub open spec fn is_joined(joined: Seq<char>, directory: Seq<char>, file: Seq<char>) -> bool {
    ||| joined == directory + file
    ||| joined == directory + seq!['/'] + file
    ||| joined == directory + seq!['\\'] + file
}

/// `Path::new(directory).join(file)`, as a string.
///
/// For a plain file name, `join` appends it: the documentation's replacing
/// cases are for absolute names and names with a root or prefix, which a
/// plain name never has. The directory stays as it is, unless it is a
/// verbatim path, which is normalized first; then comes the platform's
/// separator, left out when the directory is empty or already ends in a
/// separator or drive. A directory that needs one gets `/` or `\`, which
/// one depending on the platform; when it is left out on a directory that
/// ends in `\` or a drive depends on the platform too and is left unsaid.
#[verifier::external_body]
fn join_path(directory: &str, file: &str) -> (joined: String)
    ensures
        is_plain_file_name(file@) ==> joined@.len() >= file@.len() && joined@.subrange(
            joined@.len() - file@.len(),
            joined@.len() as int,
        ) == file@,
        is_plain_file_name(file@) && !is_verbatim(directory@) ==> is_joined(
            joined@,
            directory@,
            file@,
        ),
        is_plain_file_name(file@) && !is_verbatim(directory@) && needs_separator(directory@)
            ==> is_joined_with_separator(joined@, directory@, file@),
{
    std::path::Path::new(directory).join(file).to_string_lossy().into_owned()
}

/// `Path::new(path).extension()`, when it is valid UTF-8.
///
/// Which characters separate components depends on the platform (and, on
/// Windows, on whether the path is a verbatim one); the contract states what
/// the documentation gives on every platform: the extension is the part of
/// the file name after its last `.`, so it holds no `.` and follows a `.`
/// in the path, and outside Windows verbatim paths, where `/` always
/// separates components, it holds no `/`. Where the file name is the plain
/// name after the last `/`
/// on every platform, the extension is that name's, as the documentation
/// defines it (none without a `.`, none when the only `.` starts the name).
#[verifier::external_body]
fn path_extension(path: &str) -> (extension: Option<String>)
    ensures
        extension matches Some(e) ==> has_no(e@, '.') && occurs_in(seq!['.'] + e@, path@),
        !is_verbatim(path@) ==> (extension matches Some(e) ==> has_no(e@, '/')),
        ends_in_plain_name(path@) ==> opt_view(extension) == name_extension(final_segment(path@)),
        ends_in_dotted_name(path@) ==> opt_view(extension) == name_extension(last_component(path@)),
{
    match std::path::Path::new(path).extension() {
        Some(e) => match e.to_str() {
            Some(e) => Some(e.to_owned()),
            None => None,
        },
        None => None,
    }
}

/// The stem of a file name: what precedes its last `.`, or the whole name
/// when it has no `.` or its only `.` starts the name.
pub open spec fn name_stem(name: Seq<char>) -> Seq<char> {
    let k = last_index_of(name, '.');
    if k <= 0 {
        name
    } else {
        name.subrange(0, k)
    }
}

/// `Path::new(path).file_stem()`, when it is valid UTF-8.
///
/// The stem is part of the last path component, so it occurs in the path;
/// `/` separates components everywhere except in Windows verbatim paths, so
/// elsewhere the stem holds no `/`.
/// Where the file name is the plain name after the last `/` on every
/// platform, the stem is that name's, as the documentation defines it;
/// elsewhere where the last component starts depends on the platform's
/// separators and is left unsaid.
#[verifier::external_body]
fn path_file_stem(path: &str) -> (stem: Option<String>)
    ensures
        stem matches Some(s) ==> occurs_in(s@, path@),
        !is_verbatim(path@) ==> (stem matches Some(s) ==> has_no(s@, '/')),
        ends_in_plain_name(path@) ==> opt_view(stem) == Some(name_stem(final_segment(path@))),
        ends_in_dotted_name(path@) ==> stem is Some,
        ends_in_dotted_name(path@) ==> (stem matches Some(s) ==> ends_with(s@, name_stem(last_component(path@)))),
{
    match std::path::Path::new(path).file_stem() {
        Some(s) => match s.to_str() {
            Some(s) => Some(s.to_owned()),
            None => None,
        },
        None => None,
    }
}

/// `Path::new(path).starts_with(base)`: whether `base` is a prefix of `path`
/// by whole components. Every path starts with itself. For two simple paths,
/// whose components are the same on every platform, the documentation's
/// rule reads: both start at the root or neither does, and the names of
/// `base` begin the names of `path`. Other paths depend on the platform's
/// separators and prefixes, which is left unsaid.
#[verifier::external_body]
fn path_starts_with(path: &str, base: &str) -> (r: bool)
    ensures
        path@ == base@ ==> r,
        is_simple_path(path@) && is_simple_path(base@) ==> (r <==> (is_rooted(path@) == is_rooted(
            base@,
        ) && is_prefix(segments(base@), segments(path@)))),
        is_child_by_slash(path@, base@) ==> r,
{
    std::path::Path::new(path).starts_with(base)
}

/// The path of the library file inside `directory`.
pub fn library_path(directory: &str) -> (path: String)
    ensures
        path@.len() >= library_file_name().len(),
        path@.subrange(path@.len() - library_file_name().len(), path@.len() as int)
            == library_file_name(),
        !is_verbatim(directory@) ==> is_joined(path@, directory@, library_file_name()),
        !is_verbatim(directory@) && needs_separator(directory@) ==> is_joined_with_separator(
            path@,
            directory@,
            library_file_name(),
        ),
{
    proof {
        reveal_strlit("font-library.json");
    }
    let path = join_path(directory, "font-library.json");
    proof {
        reveal_with_fuel(plain_chars, 18);
        assert("font-library.json"@ =~= seq!['f', 'o', 'n', 't', '-', 'l', 'i', 'b', 'r', 'a', 'r', 'y', '.', 'j', 's', 'o', 'n']);
    }
    path
}

// ---------------------------------------------------------------------
// Extensions and formats
// ---------------------------------------------------------------------

pub open spec fn lowercase(s: Seq<char>) -> Seq<char> {
    s.map_values(|c: char| ascii_lower(c))
}

/// The extensions the library accepts, in lower case.
pub open spec fn is_supported_extension(e: Seq<char>) -> bool {
    e == "ttf"@ || e == "otf"@ || e == "woff"@ || e == "woff2"@
}

/// The lower-cased extension, when it is one the library accepts.
pub open spec fn supported_form(extension: Seq<char>) -> Option<Seq<char>> {
    if is_supported_extension(lowercase(extension)) {
        Some(lowercase(extension))
    } else {
        None
    }
}

/// The CSS `format()` hint for a font file with the given extension.
pub open spec fn css_format_of(extension: Seq<char>) -> Seq<char> {
    if extension == "ttf"@ {
        "truetype"@
    } else if extension == "otf"@ {
        "opentype"@
    } else if extension == "woff"@ {
        "woff"@
    } else if extension == "woff2"@ {
        "woff2"@
    } else {
        "truetype"@
    }
}

fn lowercase_exec(s: &str) -> (r: String)
    ensures
        r@ == lowercase(s@),
{
    let n = s.unicode_len();
    let mut r = String::new();
    let mut i: usize = 0;
    while i < n
        invariant
            n == s@.len(),
            i <= n,
            r@ == lowercase(s@.subrange(0, i as int)),
        decreases n - i,
    {
        let c = s.get_char(i);
        push_char(&mut r, to_ascii_lower(c));
        i = i + 1;
        assert(r@ =~= lowercase(s@.subrange(0, i as int)));
    }
    assert(s@.subrange(0, n as int) =~= s@);
    r
}

/// Lower-cases `extension` (ASCII only) and returns it when the library
/// accepts it.
pub fn supported_extension_of(extension: &str) -> (r: Option<String>)
    ensures
        r matches Some(e) ==> supported_form(extension@) == Some(e@),
        r is None ==> supported_form(extension@) is None,
{
    let lowered = lowercase_exec(extension);
    let l = lowered.as_str();
    if str_equal(l, "ttf") || str_equal(l, "otf") || str_equal(l, "woff") || str_equal(l, "woff2") {
        Some(lowered)
    } else {
        None
    }
}

/// The supported extension of the file at `path`, lower-cased, if it has
/// one. Which part of the path is the extension is decided by
/// `Path::extension`, which differs between platforms; where the path ends
/// in a plain name the same way on every platform, it is that name's
/// extension.
pub fn supported_extension(path: &str) -> (r: Option<String>)
    ensures
        r matches Some(e) ==> is_supported_extension(e@) && exists|raw: Seq<char>|
            supported_form(raw) == Some(e@) && #[trigger] occurs_in(seq!['.'] + raw, path@),
        ends_in_plain_name(path@) ==> opt_view(r) == match name_extension(final_segment(path@)) {
            Some(raw) => supported_form(raw),
            None => None,
        },
{
    match path_extension(path) {
        Some(extension) => {
            let r = supported_extension_of(extension.as_str());
            r
        },
        None => None,
    }
}

/// The CSS font format for `extension`; unknown extensions are treated as
/// TrueType.
pub fn css_format(extension: &str) -> (format: &'static str)
    ensures
        format@ == css_format_of(extension@),
{
    if str_equal(extension, "ttf") {
        "truetype"
    } else if str_equal(extension, "otf") {
        "opentype"
    } else if str_equal(extension, "woff") {
        "woff"
    } else if str_equal(extension, "woff2") {
        "woff2"
    } else {
        "truetype"
    }
}

// ---------------------------------------------------------------------
// Display names
// ---------------------------------------------------------------------

/// The name shown for a font whose file name gives none.
pub open spec fn fallback_display_name() -> Seq<char> {
    "Imported Font"@
}

/// The display name for a file whose stem is `stem`: the stem itself
/// unless it is missing or only white space.
pub open spec fn display_name_for(stem: Option<Seq<char>>) -> Seq<char> {
    match stem {
        Some(s) => if is_blank(s) {
            fallback_display_name()
        } else {
            s
        },
        None => fallback_display_name(),
    }
}

/// The display name for a file with the given stem.
pub fn display_name_from_stem(stem: Option<String>) -> (name: String)
    ensures
        name@ == display_name_for(
            match stem {
                Some(s) => Some(s@),
                None => None,
            },
        ),
{
    match stem {
        Some(s) => {
            if blank(s.as_str()) {
                String::from_str("Imported Font")
            } else {
                s
            }
        },
        None => String::from_str("Imported Font"),
    }
}

/// The name shown for the font file at `path`: its stem, or
/// `"Imported Font"` when the stem is missing or blank. Which part of the
/// path is the stem is decided by `Path::file_stem`, which differs between
/// platforms; where the path ends in a plain name the same way on every
/// platform, it is that name's stem.
pub fn display_name(path: &str) -> (name: String)
    ensures
        name@ == fallback_display_name() || (!is_blank(name@) && occurs_in(name@, path@) && (
        !is_verbatim(path@) ==> has_no(name@, '/'))),
        ends_in_plain_name(path@) ==> name@ == display_name_for(
            Some(name_stem(final_segment(path@))),
        ),
        ends_in_dotted_name(path@) && !is_blank(name_stem(last_component(path@))) ==> ends_with(
            name@,
            name_stem(last_component(path@)),
        ),
{
    let stem = path_file_stem(path);
    proof {
        let name = last_component(path@);
        if ends_in_dotted_name(path@) && !is_blank(name_stem(name)) {
            lemma_not_blank_suffix(stem->0@, name_stem(name));
        }
    }
    display_name_from_stem(stem)
}

// ---------------------------------------------------------------------
// Import checks
// ---------------------------------------------------------------------

pub open spec fn opt_view(s: Option<String>) -> Option<Seq<char>> {
    match s {
        Some(v) => Some(v@),
        None => None,
    }
}

/// The outcome of checking one chosen file before it is imported: its
/// lower-cased extension and display name, or why it is refused. The
/// extension is checked first, then that the file exists.
pub open spec fn import_plan_for(extension: Option<Seq<char>>, stem: Option<Seq<char>>, is_file: bool) -> Result<(Seq<char>, Seq<char>), FontLibraryError> {
    match extension {
        None => Err(FontLibraryError::UnsupportedExtension),
        Some(e) => match supported_form(e) {
            None => Err(FontLibraryError::UnsupportedExtension),
            Some(lowered) => if !is_file {
                Err(FontLibraryError::MissingFile)
            } else {
                Ok((lowered, display_name_for(stem)))
            },
        },
    }
}

/// Checks one chosen file, given its raw extension and stem and whether it
/// is a regular file.
pub fn import_plan(extension: Option<String>, stem: Option<String>, is_file: bool) -> (r: Result<(String, String), FontLibraryError>)
    ensures
        match r {
            Ok((e, n)) => import_plan_for(opt_view(extension), opt_view(stem), is_file) == Ok::<
                (Seq<char>, Seq<char>),
                FontLibraryError,
            >((e@, n@)),
            Err(err) => import_plan_for(opt_view(extension), opt_view(stem), is_file) == Err::<
                (Seq<char>, Seq<char>),
                FontLibraryError,
            >(err),
        },
{
    let lowered = match extension {
        None => {
            return Err(FontLibraryError::UnsupportedExtension);
        },
        Some(e) => match supported_extension_of(e.as_str()) {
            None => {
                return Err(FontLibraryError::UnsupportedExtension);
            },
            Some(l) => l,
        },
    };
    if !is_file {
        return Err(FontLibraryError::MissingFile);
    }
    let name = display_name_from_stem(stem);
    Ok((lowered, name))
}

/// What importing the file at `path` gives when the path ends in a plain
/// file name with an extension, in Windows or Unix form: the lower-cased
/// extension and a name ending in the file name's stem when the extension
/// is accepted and the file exists; `MissingFile` when it is accepted but
/// not a file; `UnsupportedExtension` when it is not accepted. (The whole
/// display name is the stem that `Path::file_stem` gives, which on Windows
/// is the file name's stem and elsewhere also takes in any `\`-separated
/// parts before it.)
pub open spec fn import_accepts_named_file(path: Seq<char>, is_file: bool, r: Result<(String, String), FontLibraryError>) -> bool {
    let name = last_component(path);
    let raw = name_extension(name)->0;
    match supported_form(raw) {
        Some(lowered) => if is_file {
            r matches Ok((e, n)) && e@ == lowered && (!is_blank(name_stem(name)) ==> ends_with(
                n@,
                name_stem(name),
            ))
        } else {
            r == Err::<(String, String), FontLibraryError>(FontLibraryError::MissingFile)
        },
        None => r == Err::<(String, String), FontLibraryError>(FontLibraryError::UnsupportedExtension),
    }
}

/// A stem that ends with a non-blank part is not blank.
proof fn lemma_not_blank_suffix(s: Seq<char>, t: Seq<char>)
    requires
        ends_with(s, t),
        !is_blank(t),
    ensures
        !is_blank(s),
{
    let i = choose|i: int| 0 <= i < t.len() && !is_unicode_whitespace(#[trigger] t[i]);
    assert(s[s.len() - t.len() + i] == t[i]);
}

/// Checks the chosen file at `source` before it is imported. Its extension
/// and stem are read off the path by `Path::extension` and
/// `Path::file_stem`, which differ between platforms; `is_file` says
/// whether it is a regular file on disk. Where the path ends in a plain
/// name the same way on every platform, the outcome is that of
/// `import_plan_for` on that name's extension and stem.
pub fn prepare_import(source: &str, is_file: bool) -> (r: Result<(String, String), FontLibraryError>)
    ensures
        r matches Ok((e, _n)) ==> is_file && is_supported_extension(e@),
        r matches Ok((e, _n)) ==> exists|raw: Seq<char>|
            supported_form(raw) == Some(e@) && #[trigger] occurs_in(seq!['.'] + raw, source@),
        r matches Ok((_e, n)) ==> n@ == fallback_display_name() || (!is_blank(n@) && occurs_in(
            n@,
            source@,
        )),
        ends_in_plain_name(source@) ==> match r {
            Ok((e, n)) => import_plan_for(
                name_extension(final_segment(source@)),
                Some(name_stem(final_segment(source@))),
                is_file,
            ) == Ok::<(Seq<char>, Seq<char>), FontLibraryError>((e@, n@)),
            Err(err) => import_plan_for(
                name_extension(final_segment(source@)),
                Some(name_stem(final_segment(source@))),
                is_file,
            ) == Err::<(Seq<char>, Seq<char>), FontLibraryError>(err),
        },
        r matches Err(err) ==> err == FontLibraryError::UnsupportedExtension || (err
            == FontLibraryError::MissingFile && !is_file),
        !is_file ==> r is Err,
        ends_in_dotted_name(source@) ==> import_accepts_named_file(source@, is_file, r),
{
    let extension = path_extension(source);
    let stem = path_file_stem(source);
    proof {
        let name = last_component(source@);
        if ends_in_dotted_name(source@) && !is_blank(name_stem(name)) {
            lemma_not_blank_suffix(stem->0@, name_stem(name));
        }
    }
    import_plan(extension, stem, is_file)
}

// ---------------------------------------------------------------------
// Identifiers
// ---------------------------------------------------------------------

/// Letters and digits are kept (lower-cased), everything else becomes `-`.
pub open spec fn sanitize_char(c: char) -> char {
    if is_ascii_alnum(c) {
        ascii_lower(c)
    } else {
        '-'
    }
}

pub open spec fn sanitize(s: Seq<char>) -> Seq<char> {
    s.map_values(|c: char| sanitize_char(c))
}

/// `s` without its leading `-` characters.
pub open spec fn trim_leading_dashes(s: Seq<char>) -> Seq<char>
    decreases s.len(),
{
    if s.len() > 0 && s[0] == '-' {
        trim_leading_dashes(s.drop_first())
    } else {
        s
    }
}

/// `s` without its trailing `-` characters.
pub open spec fn trim_trailing_dashes(s: Seq<char>) -> Seq<char>
    decreases s.len(),
{
    if s.len() > 0 && s.last() == '-' {
        trim_trailing_dashes(s.drop_last())
    } else {
        s
    }
}

/// `str::trim_matches('-')`.
pub open spec fn trim_dashes(s: Seq<char>) -> Seq<char> {
    trim_trailing_dashes(trim_leading_dashes(s))
}

/// The identifier derived from `value`: sanitized, trimmed of `-`, and
/// `"font"` when nothing is left.
pub open spec fn identifier(value: Seq<char>) -> Seq<char> {
    let trimmed = trim_dashes(sanitize(value));
    if trimmed.len() == 0 {
        "font"@
    } else {
        trimmed
    }
}

/// The characters an identifier is made of.
pub open spec fn is_identifier_char(c: char) -> bool {
    ('a' <= c && c <= 'z') || ('0' <= c && c <= '9') || c == '-'
}

/// The shape of every identifier: not empty, made of lower-case letters,
/// digits and `-`, and neither starting nor ending with `-`.
pub open spec fn is_identifier(s: Seq<char>) -> bool {
    &&& s.len() > 0
    &&& forall|i: int| 0 <= i < s.len() ==> is_identifier_char(#[trigger] s[i])
    &&& s[0] != '-'
    &&& s.last() != '-'
}

proof fn lemma_trim_leading(s: Seq<char>, k: int)
    requires
        0 <= k <= s.len(),
        forall|j: int| 0 <= j < k ==> s[j] == '-',
        k == s.len() || s[k] != '-',
    ensures
        trim_leading_dashes(s) == s.subrange(k, s.len() as int),
    decreases k,
{
    if k == 0 {
        assert(s.subrange(0, s.len() as int) =~= s);
    } else {
        let t = s.drop_first();
        assert forall|j: int| 0 <= j < k - 1 implies t[j] == '-' by {
            assert(t[j] == s[j + 1]);
        }
        lemma_trim_leading(t, k - 1);
        assert(t.subrange(k - 1, t.len() as int) =~= s.subrange(k, s.len() as int));
    }
}

proof fn lemma_trim_trailing(s: Seq<char>, k: int)
    requires
        0 <= k <= s.len(),
        forall|j: int| k <= j < s.len() ==> s[j] == '-',
        k == 0 || s[k - 1] != '-',
    ensures
        trim_trailing_dashes(s) == s.subrange(0, k),
    decreases s.len() - k,
{
    if k == s.len() {
        assert(s.subrange(0, k) =~= s);
    } else {
        let t = s.drop_last();
        lemma_trim_trailing(t, k);
        assert(t.subrange(0, k) =~= s.subrange(0, k));
    }
}

/// The identifier for `value`, used in font ids and file names.
pub fn identifier_part(value: &str) -> (part: String)
    ensures
        part@ == identifier(value@),
{
    let n = value.unicode_len();
    let mut clean: Vec<char> = Vec::new();
    let mut i: usize = 0;
    while i < n
        invariant
            n == value@.len(),
            i <= n,
            clean@ == sanitize(value@.subrange(0, i as int)),
        decreases n - i,
    {
        let c = value.get_char(i);
        let s = if ascii_alnum(c) {
            to_ascii_lower(c)
        } else {
            '-'
        };
        clean.push(s);
        i = i + 1;
        assert(clean@ =~= sanitize(value@.subrange(0, i as int)));
    }
    assert(value@.subrange(0, n as int) =~= value@);
    let ghost sanitized = clean@;
    assert(sanitized == sanitize(value@));

    let mut start: usize = 0;
    while start < n && clean[start] == '-'
        invariant
            clean@ == sanitized,
            n == sanitized.len(),
            start <= n,
            forall|j: int| 0 <= j < start ==> sanitized[j] == '-',
        decreases n - start,
    {
        start = start + 1;
    }
    proof {
        lemma_trim_leading(sanitized, start as int);
    }
    if start == n {
        proof {
            reveal_strlit("font");
        }
        return String::from_str("font");
    }
    let ghost lead = sanitized.subrange(start as int, n as int);
    let mut end: usize = n;
    while clean[end - 1] == '-'
        invariant
            clean@ == sanitized,
            n == sanitized.len(),
            start < end <= n,
            sanitized[start as int] != '-',
            forall|j: int| end <= j < n ==> sanitized[j] == '-',
        decreases end,
    {
        end = end - 1;
    }
    proof {
        let m = (end - start) as int;
        assert forall|j: int| m <= j < lead.len() implies lead[j] == '-' by {
            assert(lead[j] == sanitized[j + start]);
        }
        lemma_trim_trailing(lead, m);
        assert(lead.subrange(0, m) =~= sanitized.subrange(start as int, end as int));
    }
    let mut part = String::new();
    let mut k: usize = start;
    while k < end
        invariant
            clean@ == sanitized,
            start <= k <= end,
            end <= sanitized.len(),
            part@ == sanitized.subrange(start as int, k as int),
        decreases end - k,
    {
        push_char(&mut part, clean[k]);
        k = k + 1;
        assert(part@ =~= sanitized.subrange(start as int, k as int));
    }
    part
}

proof fn lemma_trim_leading_shape(s: Seq<char>) -> (k: int)
    ensures
        0 <= k <= s.len(),
        trim_leading_dashes(s) == s.subrange(k, s.len() as int),
        k < s.len() ==> s[k] != '-',
    decreases s.len(),
{
    if s.len() > 0 && s[0] == '-' {
        let k1 = lemma_trim_leading_shape(s.drop_first());
        assert(s.drop_first().subrange(k1, s.len() - 1) =~= s.subrange(k1 + 1, s.len() as int));
        k1 + 1
    } else {
        assert(s.subrange(0, s.len() as int) =~= s);
        0
    }
}

proof fn lemma_trim_trailing_shape(s: Seq<char>) -> (k: int)
    ensures
        0 <= k <= s.len(),
        trim_trailing_dashes(s) == s.subrange(0, k),
        k > 0 ==> s[k - 1] != '-',
    decreases s.len(),
{
    if s.len() > 0 && s.last() == '-' {
        let k1 = lemma_trim_trailing_shape(s.drop_last());
        assert(s.drop_last().subrange(0, k1) =~= s.subrange(0, k1));
        k1
    } else {
        assert(s.subrange(0, s.len() as int) =~= s);
        s.len() as int
    }
}

/// Every identifier has the identifier shape: it is never empty, holds only
/// lower-case ASCII letters, digits and `-`, and neither starts nor ends
/// with `-`.
pub proof fn lemma_identifier_shape(value: Seq<char>)
    ensures
        is_identifier(identifier(value)),
{
    let s = sanitize(value);
    let a = lemma_trim_leading_shape(s);
    let lead = trim_leading_dashes(s);
    let b = lemma_trim_trailing_shape(lead);
    let t = trim_dashes(s);
    assert(t =~= s.subrange(a, a + b));
    if t.len() == 0 {
        reveal_strlit("font");
        assert("font"@ =~= seq!['f', 'o', 'n', 't']);
    } else {
        assert forall|i: int| 0 <= i < t.len() implies is_identifier_char(#[trigger] t[i]) by {
            assert(t[i] == s[a + i]);
            assert(s[a + i] == sanitize_char(value[a + i]));
        }
        assert(t[0] == lead[0]);
    }
}

/// Deriving an identifier from an identifier changes nothing.
pub proof fn lemma_identifier_idempotent(value: Seq<char>)
    ensures
        identifier(identifier(value)) == identifier(value),
{
    let r = identifier(value);
    lemma_identifier_shape(value);
    assert forall|i: int| 0 <= i < r.len() implies #[trigger] sanitize(r)[i] == r[i] by {
        assert(is_identifier_char(r[i]));
    }
    assert(sanitize(r) =~= r);
    assert(trim_leading_dashes(r) == r);
    assert(trim_trailing_dashes(r) == r);
}

// ---------------------------------------------------------------------
// Font ids
// ---------------------------------------------------------------------

/// The id of an imported font: the identifier of its name, the import
/// time in milliseconds, and, when `counter` is not zero, the counter that
/// made the file name unique.
pub open spec fn font_id(base: Seq<char>, timestamp: nat, counter: nat) -> Seq<char> {
    if counter == 0 {
        base + seq!['-'] + decimal(timestamp)
    } else {
        base + seq!['-'] + decimal(timestamp) + seq!['-'] + decimal(counter)
    }
}

/// The file name an imported font is stored under.
pub open spec fn font_file_name(id: Seq<char>, extension: Seq<char>) -> Seq<char> {
    id + seq!['.'] + extension
}

/// Different counters give different ids for the same name and time, so
/// the candidates tried for one import are all distinct.
pub proof fn lemma_font_ids_distinct(base: Seq<char>, timestamp: nat, c1: nat, c2: nat)
    requires
        c1 != c2,
    ensures
        font_id(base, timestamp, c1) != font_id(base, timestamp, c2),
{
    let p = base + seq!['-'] + decimal(timestamp);
    let id1 = font_id(base, timestamp, c1);
    let id2 = font_id(base, timestamp, c2);
    lemma_digits_nonempty(c1, 10);
    lemma_digits_nonempty(c2, 10);
    if c1 != 0 && c2 != 0 {
        if id1 == id2 {
            let start = p.len() + 1;
            assert(id1.subrange(start as int, id1.len() as int) =~= decimal(c1));
            assert(id2.subrange(start as int, id2.len() as int) =~= decimal(c2));
            lemma_digits_injective(c1, c2, 10);
        }
    } else {
        assert(id1.len() != id2.len());
    }
}

proof fn lemma_plain_chars_all(s: Seq<char>)
    ensures
        plain_chars(s) <==> forall|i: int|
            0 <= i < s.len() ==> #[trigger] s[i] != '/' && s[i] != '\\' && s[i] != ':',
    decreases s.len(),
{
    if s.len() > 0 {
        lemma_plain_chars_all(s.drop_last());
        if plain_chars(s) {
            assert forall|i: int| 0 <= i < s.len() implies #[trigger] s[i] != '/' && s[i] != '\\'
                && s[i] != ':' by {
                if i < s.len() - 1 {
                    assert(s[i] == s.drop_last()[i]);
                }
            }
        }
        if forall|i: int| 0 <= i < s.len() ==> #[trigger] s[i] != '/' && s[i] != '\\' && s[i]
            != ':' {
            assert forall|i: int| 0 <= i < s.len() - 1 implies #[trigger] s.drop_last()[i] != '/'
                && s.drop_last()[i] != '\\' && s.drop_last()[i] != ':' by {
                assert(s.drop_last()[i] == s[i]);
            }
            assert(s.last() == s[s.len() - 1]);
        }
    }
}

proof fn lemma_decimal_digits_only(n: nat)
    ensures
        forall|i: int| 0 <= i < decimal(n).len() ==> '0' <= #[trigger] decimal(n)[i] && decimal(n)[i] <= '9',
    decreases n,
{
    if n >= 10 {
        lemma_quotient_smaller(n, 10);
        lemma_decimal_digits_only(n / 10);
        assert(n % 10 < 10);
        let d = decimal(n);
        assert forall|i: int| 0 <= i < d.len() implies '0' <= #[trigger] d[i] && d[i] <= '9' by {
            if i < d.len() - 1 {
                assert(d[i] == decimal(n / 10)[i]);
            }
        }
    }
}

/// For an accepted extension, the file name of every candidate id is a
/// plain file name, so the destination really ends with it.
pub proof fn lemma_font_file_name_plain(name: Seq<char>, timestamp: nat, counter: nat, extension: Seq<char>)
    requires
        is_supported_extension(extension),
    ensures
        is_plain_file_name(font_file_name(font_id(identifier(name), timestamp, counter), extension)),
{
    let base = identifier(name);
    lemma_identifier_shape(name);
    lemma_decimal_digits_only(timestamp);
    lemma_decimal_digits_only(counter);
    let id = font_id(base, timestamp, counter);
    let f = font_file_name(id, extension);
    reveal_strlit("ttf");
    reveal_strlit("otf");
    reveal_strlit("woff");
    reveal_strlit("woff2");
    assert forall|i: int| 0 <= i < f.len() implies #[trigger] f[i] != '/' && f[i] != '\\' && f[i]
        != ':' by {
        let d1 = decimal(timestamp);
        let d2 = decimal(counter);
        if i < base.len() {
            assert(f[i] == base[i]);
            assert(is_identifier_char(base[i]));
        } else if i < base.len() + 1 {
        } else if i < base.len() + 1 + d1.len() {
            assert(f[i] == d1[i - base.len() - 1]);
        } else if counter != 0 && i < base.len() + 1 + d1.len() + 1 {
        } else if counter != 0 && i < id.len() {
            assert(f[i] == d2[i - base.len() - 2 - d1.len()]);
        } else if i < id.len() + 1 {
        } else {
            assert(f[i] == extension[i - id.len() - 1]);
        }
    }
    lemma_plain_chars_all(f);
    lemma_digits_nonempty(timestamp, 10);
    assert(f.len() >= 3);
}

/// The `counter`-th candidate id and destination for a font called `name`
/// imported at `timestamp` (milliseconds since the Unix epoch): the
/// destination is `directory` joined with `<id>.<extension>`. The caller
/// tries counters from zero up until the destination is free.
pub fn next_font_id(directory: &str, name: &str, extension: &str, timestamp: u128, counter: u32) -> (r: (String, String))
    ensures
        r.0@ == font_id(identifier(name@), timestamp as nat, counter as nat),
        is_plain_file_name(font_file_name(r.0@, extension@)) ==> r.1@.len() >= font_file_name(
            r.0@,
            extension@,
        ).len() && r.1@.subrange(
            r.1@.len() - font_file_name(r.0@, extension@).len(),
            r.1@.len() as int,
        ) == font_file_name(r.0@, extension@),
        is_plain_file_name(font_file_name(r.0@, extension@)) && !is_verbatim(directory@)
            ==> is_joined(r.1@, directory@, font_file_name(r.0@, extension@)),
        is_plain_file_name(font_file_name(r.0@, extension@)) && !is_verbatim(directory@)
            && needs_separator(directory@) ==> is_joined_with_separator(
            r.1@,
            directory@,
            font_file_name(r.0@, extension@),
        ),
{
    let base = identifier_part(name);
    let mut id = base;
    push_char(&mut id, '-');
    append_digits(&mut id, timestamp, 10);
    if counter != 0 {
        push_char(&mut id, '-');
        append_digits(&mut id, counter as u128, 10);
    }
    assert(id@ =~= font_id(identifier(name@), timestamp as nat, counter as nat));
    let mut file = id.clone();
    push_char(&mut file, '.');
    file.append(extension);
    assert(file@ =~= font_file_name(id@, extension@));
    let destination = join_path(directory, file.as_str());
    (id, destination)
}

/// What to do with a candidate destination once it is known whether a file
/// is already there.
#[derive(Clone, Copy, Debug, PartialEq, Eq, Structural)]
pub enum CandidateStep {
    /// The destination is free: import the font there.
    Use,
    /// The destination is taken: try this counter next.
    TryNext(u32),
    /// The destination is taken and no counter is left.
    Exhausted,
}

/// The search for a free destination: stop at the first candidate whose
/// file does not exist, otherwise go on with the next counter.
pub fn candidate_step(counter: u32, destination_exists: bool) -> (step: CandidateStep)
    ensures
        !destination_exists ==> step == CandidateStep::Use,
        destination_exists && counter < u32::MAX ==> step == CandidateStep::TryNext(
            (counter + 1) as u32,
        ),
        destination_exists && counter == u32::MAX ==> step == CandidateStep::Exhausted,
{
    if !destination_exists {
        CandidateStep::Use
    } else if counter < u32::MAX {
        CandidateStep::TryNext(counter + 1)
    } else {
        CandidateStep::Exhausted
    }
}

// ---------------------------------------------------------------------
// Library entries
// ---------------------------------------------------------------------

/// The CSS font family an imported font is registered under.
pub open spec fn family_for(id: Seq<char>) -> Seq<char> {
    "ChrononImported-"@ + id
}

/// The library entry for a font copied to `destination`.
pub fn imported_font(id: String, name: String, destination: String, extension: &str) -> (font: ImportedFont)
    ensures
        font.id@ == id@,
        font.name@ == name@,
        font.family@ == family_for(id@),
        font.path@ == destination@,
        font.format@ == css_format_of(extension@),
{
    let family = String::from_str("ChrononImported-").concat(id.as_str());
    let format = String::from_str(css_format(extension));
    ImportedFont { id, name, family, path: destination, format }
}

/// The items whose flag is set, in the order they came.
pub open spec fn keep_flagged<T>(items: Seq<T>, keep: Seq<bool>) -> Seq<T>
    decreases items.len(),
{
    if items.len() == 0 {
        seq![]
    } else {
        let rest = keep_flagged(items.drop_last(), keep);
        if keep[items.len() - 1] {
            rest.push(items.last())
        } else {
            rest
        }
    }
}

/// Keeps the fonts whose flag is set, in order, and says whether any was
/// dropped.
pub fn retain_flagged(fonts: Vec<ImportedFont>, keep: &Vec<bool>) -> (r: (Vec<ImportedFont>, bool))
    requires
        keep.len() == fonts.len(),
    ensures
        r.0@ == keep_flagged(fonts@, keep@),
        r.1 == (r.0.len() != fonts.len()),
        r.1 <==> exists|i: int| 0 <= i < fonts.len() && !#[trigger] keep@[i],
{
    proof {
        lemma_keep_flagged_len(fonts@, keep@);
    }
    let ghost before = fonts@;
    let n = fonts.len();
    let mut rest = fonts;
    let mut kept: Vec<ImportedFont> = Vec::new();
    let mut i: usize = 0;
    while i < n
        invariant
            n == before.len(),
            keep@.len() == n,
            i <= n,
            rest@ == before.subrange(i as int, n as int),
            kept@ == keep_flagged(before.subrange(0, i as int), keep@),
        decreases n - i,
    {
        let font = rest.remove(0);
        proof {
            let pre = before.subrange(0, i as int + 1);
            assert(pre.drop_last() =~= before.subrange(0, i as int));
            assert(pre.last() == before[i as int]);
        }
        if keep[i] {
            kept.push(font);
        }
        i = i + 1;
        assert(rest@ =~= before.subrange(i as int, n as int));
    }
    assert(before.subrange(0, n as int) =~= before);
    let changed = kept.len() != n;
    (kept, changed)
}

/// Keeping flagged items never adds any, and keeps them all exactly when
/// every flag is set.
pub proof fn lemma_keep_flagged_len<T>(items: Seq<T>, keep: Seq<bool>)
    requires
        keep.len() >= items.len(),
    ensures
        keep_flagged(items, keep).len() <= items.len(),
        keep_flagged(items, keep).len() == items.len() <==> forall|i: int|
            0 <= i < items.len() ==> #[trigger] keep[i],
    decreases items.len(),
{
    if items.len() > 0 {
        let n = items.len() - 1;
        lemma_keep_flagged_len(items.drop_last(), keep);
        if keep_flagged(items, keep).len() == items.len() {
            assert forall|i: int| 0 <= i < items.len() implies #[trigger] keep[i] by {
                if i < n {
                    assert(keep_flagged(items.drop_last(), keep).len() == n);
                }
            }
        }
    }
}

/// Whether the simple path `path` lies in `directory` by whole components.
pub open spec fn within_by_components(path: Seq<char>, directory: Seq<char>) -> bool {
    is_rooted(path) == is_rooted(directory) && is_prefix(segments(directory), segments(path))
}

/// Every font's file is on disk and named directly inside `directory`,
/// joined to it with `/`.
pub open spec fn all_children_on_disk(fonts: Seq<ImportedFont>, directory: Seq<char>, on_disk: Seq<bool>) -> bool {
    forall|i: int|
        0 <= i < fonts.len() ==> is_child_by_slash(#[trigger] fonts[i].path@, directory)
            && on_disk[i]
}

/// A plain file name joined to a directory with `/` is named directly
/// inside that directory, for every directory that `Path` reads the same
/// on every platform; so a font copied to such a destination is kept by
/// pruning while its file is on disk, and counts as inside the library when
/// it is deleted.
pub proof fn lemma_joined_is_child(directory: Seq<char>, file: Seq<char>)
    requires
        needs_separator(directory),
        !starts_with_two_separators(directory),
        is_plain_file_name(file),
    ensures
        is_child_by_slash(directory + seq!['/'] + file, directory),
{
    let p = directory + seq!['/'] + file;
    assert(p.subrange(0, directory.len() as int) =~= directory);
    assert(p.subrange(directory.len() as int + 1, p.len() as int) =~= file);
}

/// For each font, whether its path lies in `directory` by whole components.
pub open spec fn inside_flags(fonts: Seq<ImportedFont>, directory: Seq<char>) -> Seq<bool> {
    Seq::new(fonts.len(), |i: int| within_by_components(fonts[i].path@, directory))
}

/// The directory and every font path are simple paths.
pub open spec fn all_simple(fonts: Seq<ImportedFont>, directory: Seq<char>) -> bool {
    &&& is_simple_path(directory)
    &&& forall|i: int| 0 <= i < fonts.len() ==> is_simple_path(#[trigger] fonts[i].path@)
}

/// The fonts kept by pruning, for simple paths: those inside the directory
/// whose file is on disk.
pub open spec fn pruned(fonts: Seq<ImportedFont>, directory: Seq<char>, on_disk: Seq<bool>) -> Seq<ImportedFont> {
    keep_flagged(fonts, both(inside_flags(fonts, directory), on_disk))
}

/// If every flagged font lies inside `directory`, so does every kept font;
/// and kept fonts have simple paths when all fonts do.
pub proof fn lemma_kept_inside(fonts: Seq<ImportedFont>, directory: Seq<char>, keep: Seq<bool>)
    requires
        keep.len() >= fonts.len(),
        forall|i: int| 0 <= i < fonts.len() ==> is_simple_path(#[trigger] fonts[i].path@),
        forall|i: int|
            0 <= i < fonts.len() && #[trigger] keep[i] ==> within_by_components(
                fonts[i].path@,
                directory,
            ),
    ensures
        forall|j: int|
            0 <= j < keep_flagged(fonts, keep).len() ==> within_by_components(
                #[trigger] keep_flagged(fonts, keep)[j].path@,
                directory,
            ) && is_simple_path(keep_flagged(fonts, keep)[j].path@),
    decreases fonts.len(),
{
    if fonts.len() > 0 {
        let rest = fonts.drop_last();
        assert forall|i: int| 0 <= i < rest.len() && #[trigger] keep[i] implies within_by_components(
            rest[i].path@,
            directory,
        ) by {
            assert(rest[i] == fonts[i]);
        }
        assert forall|i: int| 0 <= i < rest.len() implies is_simple_path(#[trigger] rest[i].path@) by {
            assert(rest[i] == fonts[i]);
        }
        lemma_kept_inside(rest, directory, keep);
        let out = keep_flagged(fonts, keep);
        let prev = keep_flagged(rest, keep);
        assert forall|j: int| 0 <= j < out.len() implies within_by_components(
            #[trigger] out[j].path@,
            directory,
        ) && is_simple_path(out[j].path@) by {
            if j < prev.len() {
                assert(out[j] == prev[j]);
            } else {
                assert(keep[fonts.len() - 1]);
                assert(out[j] == fonts[fonts.len() - 1]);
            }
        }
    }
}

/// With every flag set, all items are kept.
pub proof fn lemma_keep_all<T>(items: Seq<T>, keep: Seq<bool>)
    requires
        keep.len() >= items.len(),
        forall|i: int| 0 <= i < items.len() ==> #[trigger] keep[i],
    ensures
        keep_flagged(items, keep) == items,
    decreases items.len(),
{
    if items.len() > 0 {
        lemma_keep_all(items.drop_last(), keep);
        assert(keep[items.len() - 1]);
        assert(items.drop_last().push(items.last()) =~= items);
    }
}

/// Pruning a pruned list again, with every kept file still on disk, keeps
/// it exactly as it is, so the second pruning reports no change and writes
/// nothing.
pub proof fn lemma_prune_twice(fonts: Seq<ImportedFont>, directory: Seq<char>, on_disk: Seq<bool>, still_on_disk: Seq<bool>)
    requires
        all_simple(fonts, directory),
        on_disk.len() == fonts.len(),
        still_on_disk.len() == pruned(fonts, directory, on_disk).len(),
        forall|j: int| 0 <= j < still_on_disk.len() ==> #[trigger] still_on_disk[j],
    ensures
        all_simple(pruned(fonts, directory, on_disk), directory),
        pruned(pruned(fonts, directory, on_disk), directory, still_on_disk) == pruned(
            fonts,
            directory,
            on_disk,
        ),
{
    let flags = both(inside_flags(fonts, directory), on_disk);
    let once = pruned(fonts, directory, on_disk);
    assert forall|i: int| 0 <= i < fonts.len() && #[trigger] flags[i] implies within_by_components(
        fonts[i].path@,
        directory,
    ) by {
        assert(inside_flags(fonts, directory)[i]);
    }
    lemma_kept_inside(fonts, directory, flags);
    let again = both(inside_flags(once, directory), still_on_disk);
    assert forall|j: int| 0 <= j < once.len() implies #[trigger] again[j] by {
        assert(within_by_components(once[j].path@, directory));
        assert(inside_flags(once, directory)[j]);
    }
    lemma_keep_all(once, again);
}

/// Pairwise conjunction of two flag sequences.
pub open spec fn both(a: Seq<bool>, b: Seq<bool>) -> Seq<bool> {
    Seq::new(a.len(), |i: int| a[i] && b[i])
}

/// Drops the fonts that are no longer usable: those whose file is not on
/// disk (`on_disk[i]` false) or lies outside `directory`. Whether a path
/// lies inside the directory is decided by `Path::starts_with`, which
/// differs between platforms; a font whose path is the directory itself
/// always counts as inside, and for simple paths a font is inside exactly
/// when the directory's components begin its path. Also says whether any
/// font was dropped.
pub fn prune_missing_fonts(directory: &str, fonts: Vec<ImportedFont>, on_disk: &Vec<bool>) -> (r: (Vec<ImportedFont>, bool))
    requires
        on_disk.len() == fonts.len(),
    ensures
        exists|inside: Seq<bool>|
            {
                &&& inside.len() == fonts.len()
                &&& forall|i: int|
                    0 <= i < fonts.len() && #[trigger] fonts@[i].path@ == directory@ ==> inside[i]
                &&& forall|i: int|
                    0 <= i < fonts.len() && is_simple_path(#[trigger] fonts@[i].path@)
                        && is_simple_path(directory@) ==> (inside[i] <==> within_by_components(
                        fonts@[i].path@,
                        directory@,
                    ))
                &&& forall|i: int|
                    0 <= i < fonts.len() && is_child_by_slash(#[trigger] fonts@[i].path@, directory@)
                        ==> inside[i]
                &&& r.0@ == keep_flagged(fonts@, both(inside, on_disk@))
            },
        r.1 == (r.0.len() != fonts.len()),
        all_simple(fonts@, directory@) ==> r.0@ == pruned(fonts@, directory@, on_disk@),
        all_children_on_disk(fonts@, directory@, on_disk@) ==> r.0@ == fonts@ && !r.1,
{
    let n = fonts.len();
    let mut keep: Vec<bool> = Vec::new();
    let ghost mut inside: Seq<bool> = seq![];
    let mut i: usize = 0;
    while i < n
        invariant
            n == fonts.len(),
            on_disk.len() == n,
            i <= n,
            inside.len() == i,
            keep@ == both(inside, on_disk@.subrange(0, i as int)),
            forall|j: int| 0 <= j < i && #[trigger] fonts@[j].path@ == directory@ ==> inside[j],
            forall|j: int|
                0 <= j < i && is_simple_path(#[trigger] fonts@[j].path@) && is_simple_path(
                    directory@,
                ) ==> (inside[j] <==> within_by_components(fonts@[j].path@, directory@)),
            forall|j: int|
                0 <= j < i && is_child_by_slash(#[trigger] fonts@[j].path@, directory@) ==> inside[j],
        decreases n - i,
    {
        let within = path_starts_with(fonts[i].path.as_str(), directory);
        keep.push(within && on_disk[i]);
        proof {
            inside = inside.push(within);
        }
        i = i + 1;
        assert(keep@ =~= both(inside, on_disk@.subrange(0, i as int)));
    }
    assert(on_disk@.subrange(0, n as int) =~= on_disk@);
    proof {
        if all_simple(fonts@, directory@) {
            assert(inside =~= inside_flags(fonts@, directory@));
        }
        if all_children_on_disk(fonts@, directory@, on_disk@) {
            assert forall|j: int| 0 <= j < fonts@.len() implies #[trigger] both(inside, on_disk@)[j] by {
                assert(is_child_by_slash(fonts@[j].path@, directory@));
            }
            lemma_keep_all(fonts@, both(inside, on_disk@));
            lemma_keep_flagged_len(fonts@, both(inside, on_disk@));
        }
    }
    retain_flagged(fonts, &keep)
}

/// Refuses a font path that does not lie inside the library directory, as
/// decided by `Path::starts_with` (which differs between platforms). The
/// directory itself always counts as inside; for simple paths, a path is
/// inside exactly when the directory's components begin it.
pub fn check_inside_library(directory: &str, path: &str) -> (r: Result<(), FontLibraryError>)
    ensures
        r is Ok || r == Err::<(), FontLibraryError>(FontLibraryError::OutsideLibrary),
        path@ == directory@ ==> r is Ok,
        is_simple_path(path@) && is_simple_path(directory@) ==> (r is Ok <==> (is_rooted(path@)
            == is_rooted(directory@) && is_prefix(segments(directory@), segments(path@)))),
        is_child_by_slash(path@, directory@) ==> r is Ok,
{
    if path_starts_with(path, directory) {
        Ok(())
    } else {
        Err(FontLibraryError::OutsideLibrary)
    }
}

/// Whether some font in `fonts` has the id `id`.
pub open spec fn has_id(fonts: Seq<ImportedFont>, id: Seq<char>) -> bool {
    exists|i: int| 0 <= i < fonts.len() && #[trigger] fonts[i].id@ == id
}

/// Removes the first font with the id `id` from `library` and hands it
/// back; refuses with `FontNotFound`, leaving the library as it was, when
/// there is none.
pub fn take_font(library: &mut Vec<ImportedFont>, id: &str) -> (r: Result<ImportedFont, FontLibraryError>)
    ensures
        r is Ok <==> has_id(old(library)@, id@),
        r matches Ok(font) ==> exists|i: int|
            {
                &&& 0 <= i < old(library)@.len()
                &&& old(library)@[i].id@ == id@
                &&& forall|j: int| 0 <= j < i ==> #[trigger] old(library)@[j].id@ != id@
                &&& font == old(library)@[i]
                &&& final(library)@ == old(library)@.remove(i)
            },
        r matches Err(e) ==> e == FontLibraryError::FontNotFound && final(library)@ == old(library)@,
{
    let n = library.len();
    let mut i: usize = 0;
    while i < n
        invariant
            n == library.len(),
            library@ == old(library)@,
            i <= n,
            forall|j: int| 0 <= j < i ==> #[trigger] library@[j].id@ != id@,
        decreases n - i,
    {
        if str_equal(library[i].id.as_str(), id) {
            let ghost k = i as int;
            assert(old(library)@[k].id@ == id@);
            let font = library.remove(i);
            assert(library@ == old(library)@.remove(k));
            return Ok(font);
        }
        i = i + 1;
    }
    Err(FontLibraryError::FontNotFound)
}

impl FontLibraryError {
    /// The message the editor shows for this error.
    pub open spec fn text(self) -> Seq<char> {
        match self {
            FontLibraryError::UnsupportedExtension => "Only .ttf, .otf, .woff, and .woff2 files are supported."@,
            FontLibraryError::MissingFile => "The selected font file could not be found."@,
            FontLibraryError::FontNotFound => "Imported font not found."@,
            FontLibraryError::OutsideLibrary => "The requested font is outside the application font library."@,
        }
    }

    /// The message the editor shows for this error.
    pub fn message(&self) -> (m: String)
        ensures
            m@ == self.text(),
    {
        match self {
            FontLibraryError::UnsupportedExtension => String::from_str(
                "Only .ttf, .otf, .woff, and .woff2 files are supported.",
            ),
            FontLibraryError::MissingFile => String::from_str(
                "The selected font file could not be found.",
            ),
            FontLibraryError::FontNotFound => String::from_str("Imported font not found."),
            FontLibraryError::OutsideLibrary => String::from_str(
                "The requested font is outside the application font library.",
            ),
        }
    }
}

} // verus!
