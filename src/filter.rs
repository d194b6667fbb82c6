//! Deciding which files are counted: binary, data and documentation files
//! are left out by extension, and a few files by name.
use vstd::prelude::*;

verus! {

/// The final component of a path, as `std::path::Path::file_name` gives it.
pub uninterp spec fn file_name_of(path: Seq<char>) -> Option<Seq<char>>;

/// The extension of a path, as `std::path::Path::extension` gives it.
pub uninterp spec fn extension_of(path: Seq<char>) -> Option<Seq<char>>;

/// The lowercase form of a text, as `str::to_lowercase` gives it.
pub uninterp spec fn lower_of(s: Seq<char>) -> Seq<char>;

/// Relies on std::path::Path::file_name: the final component of the path,
/// which is valid UTF-8 because the path is.
#[verifier::external_body]
fn file_name<'a>(path: &'a str) -> (r: Option<&'a str>)
    ensures
        match r {
            Some(n) => file_name_of(path@) == Some(n@),
            None => file_name_of(path@) is None,
        },
{
    std::path::Path::new(path).file_name().and_then(|n| n.to_str())
}

/// Relies on std::path::Path::extension: the extension of the final
/// component, which is valid UTF-8 because the path is.
#[verifier::external_body]
fn extension<'a>(path: &'a str) -> (r: Option<&'a str>)
    ensures
        match r {
            Some(e) => extension_of(path@) == Some(e@),
            None => extension_of(path@) is None,
        },
{
    std::path::Path::new(path).extension().and_then(|e| e.to_str())
}

/// Relies on str::to_lowercase: the result depends on the characters alone.
#[verifier::external_body]
fn lowercase(s: &str) -> (r: String)
    ensures
        r@ == lower_of(s@),
{
    s.to_lowercase()
}

/// Names of files that are never counted.
pub open spec fn is_excluded_filename(n: Seq<char>) -> bool {
    n == "LICENSE"@ || n == "LICENSE-MIT"@ || n == "LICENSE-APACHE"@ || n == ".gitignore"@
}

/// Extensions of media and other binary files.
pub open spec fn is_media_extension(e: Seq<char>) -> bool {
    e == "mp3"@ || e == "png"@ || e == "jpg"@ || e == "jpeg"@ || e == "gif"@ || e == "svg"@
        || e == "woff2"@ || e == "ico"@ || e == "webp"@ || e == "bmp"@ || e == "tiff"@
        || e == "wav"@ || e == "mp4"@ || e == "avi"@ || e == "mov"@ || e == "webm"@
        || e == "flac"@ || e == "ogg"@ || e == "ttf"@ || e == "woff"@ || e == "eot"@
        || e == "otf"@ || e == "pdf"@
}

/// Extensions of data and configuration files.
pub open spec fn is_data_extension(e: Seq<char>) -> bool {
    e == "mmdb"@ || e == "csv"@ || e == "json"@ || e == "toml"@ || e == "lock"@ || e == "ini"@
        || e == "yaml"@ || e == "yml"@ || e == "xml"@
}

/// Extensions of documentation files.
pub open spec fn is_doc_extension(e: Seq<char>) -> bool {
    e == "md"@
}

/// Whether `s` is one of the texts in `table`.
pub open spec fn listed(table: Seq<Seq<char>>, s: Seq<char>) -> bool {
    exists|i: int| 0 <= i < table.len() && table[i] == s
}

/// The text of an optional string.
pub open spec fn text_of(o: Option<&str>) -> Option<Seq<char>> {
    match o {
        Some(s) => Some(s@),
        None => None,
    }
}

/// The texts of a sequence of strings.
pub open spec fn texts(v: Seq<String>) -> Seq<Seq<char>> {
    v.map_values(|s: String| s@)
}

/// Whether two strings hold the same characters.
fn same_text(a: &str, b: &str) -> (r: bool)
    ensures
        r == (a@ == b@),
{
    let n = a.unicode_len();
    if n != b.unicode_len() {
        return false;
    }
    let mut i: usize = 0;
    while i < n
        invariant
            n == a@.len() == b@.len(),
            i <= n,
            forall|k: int| 0 <= k < i ==> a@[k] == b@[k],
        decreases n - i,
    {
        if a.get_char(i) != b.get_char(i) {
            return false;
        }
        i = i + 1;
    }
    assert(a@ =~= b@);
    true
}

/// Whether `s` is one of the strings in `table`.
fn listed_in(table: &Vec<String>, s: &str) -> (r: bool)
    ensures
        r == listed(texts(table@), s@),
{
    let mut i: usize = 0;
    while i < table.len()
        invariant
            i <= table@.len(),
            forall|k: int| 0 <= k < i ==> table@[k]@ != s@,
        decreases table@.len() - i,
    {
        if same_text(table[i].as_str(), s) {
            assert(texts(table@)[i as int] == s@);
            return true;
        }
        i = i + 1;
    }
    assert(!listed(texts(table@), s@)) by {
        assert forall|k: int| 0 <= k < texts(table@).len() implies texts(table@)[k] != s@ by {
            assert(texts(table@)[k] == table@[k]@);
        }
    }
    false
}

fn excluded_filename(n: &str) -> (r: bool)
    ensures
        r == is_excluded_filename(n@),
{
    same_text(n, "LICENSE") || same_text(n, "LICENSE-MIT") || same_text(n, "LICENSE-APACHE")
        || same_text(n, ".gitignore")
}

fn media_extension(e: &str) -> (r: bool)
    ensures
        r == is_media_extension(e@),
{
    same_text(e, "mp3") || same_text(e, "png") || same_text(e, "jpg") || same_text(e, "jpeg")
        || same_text(e, "gif") || same_text(e, "svg") || same_text(e, "woff2") || same_text(
        e,
        "ico",
    ) || same_text(e, "webp") || same_text(e, "bmp") || same_text(e, "tiff") || same_text(
        e,
        "wav",
    ) || same_text(e, "mp4") || same_text(e, "avi") || same_text(e, "mov") || same_text(
        e,
        "webm",
    ) || same_text(e, "flac") || same_text(e, "ogg") || same_text(e, "ttf") || same_text(
        e,
        "woff",
    ) || same_text(e, "eot") || same_text(e, "otf") || same_text(e, "pdf")
}

fn data_extension(e: &str) -> (r: bool)
    ensures
        r == is_data_extension(e@),
{
    same_text(e, "mmdb") || same_text(e, "csv") || same_text(e, "json") || same_text(e, "toml")
        || same_text(e, "lock") || same_text(e, "ini") || same_text(e, "yaml") || same_text(
        e,
        "yml",
    ) || same_text(e, "xml")
}

fn doc_extension(e: &str) -> (r: bool)
    ensures
        r == is_doc_extension(e@),
{
    same_text(e, "md")
}

/// A file filter that determines which files should be counted.
#[derive(Debug, Clone, Default)]
pub struct FileFilter {
    /// Additional extensions to exclude, in lowercase.
    extra_excluded_extensions: Vec<String>,
    /// Additional filenames to exclude.
    extra_excluded_filenames: Vec<String>,
}

impl FileFilter {
    /// The extensions excluded beyond the defaults, in lowercase.
    pub closed spec fn extra_extensions(&self) -> Seq<Seq<char>> {
        texts(self.extra_excluded_extensions@)
    }

    /// The file names excluded beyond the defaults.
    pub closed spec fn extra_filenames(&self) -> Seq<Seq<char>> {
        texts(self.extra_excluded_filenames@)
    }

    /// Whether a file with final component `name` and lowercase extension
    /// `ext` is counted.
    pub open spec fn admits(&self, name: Option<Seq<char>>, ext: Option<Seq<char>>) -> bool {
        &&& match name {
            Some(n) => !is_excluded_filename(n) && !listed(self.extra_filenames(), n),
            None => true,
        }
        &&& match ext {
            Some(e) => !is_media_extension(e) && !is_data_extension(e) && !is_doc_extension(e)
                && !listed(self.extra_extensions(), e),
            None => true,
        }
    }

    /// Whether the file at `path` is counted.
    pub open spec fn counts_path(&self, path: Seq<char>) -> bool {
        self.admits(
            file_name_of(path),
            match extension_of(path) {
                Some(e) => Some(lower_of(e)),
                None => None,
            },
        )
    }

    /// Creates a new file filter with default exclusions only.
    pub fn new() -> (r: Self)
        ensures
            r.extra_extensions() == Seq::<Seq<char>>::empty(),
            r.extra_filenames() == Seq::<Seq<char>>::empty(),
    {
        let r = FileFilter { extra_excluded_extensions: Vec::new(), extra_excluded_filenames: Vec::new() };
        assert(r.extra_extensions() =~= Seq::<Seq<char>>::empty());
        assert(r.extra_filenames() =~= Seq::<Seq<char>>::empty());
        r
    }

    /// Adds an extension (without the leading dot) to the exclusion list;
    /// extensions are compared without regard to case.
    pub fn exclude_extension(self, extension: &str) -> (r: Self)
        ensures
            r.extra_extensions() == self.extra_extensions().push(lower_of(extension@)),
            r.extra_filenames() == self.extra_filenames(),
    {
        let mut r = self;
        let lower = lowercase(extension);
        r.extra_excluded_extensions.push(lower);
        assert(r.extra_extensions() =~= self.extra_extensions().push(lower_of(extension@)));
        r
    }

    /// Adds a file name to the exclusion list.
    pub fn exclude_filename(self, filename: &str) -> (r: Self)
        ensures
            r.extra_filenames() == self.extra_filenames().push(filename@),
            r.extra_extensions() == self.extra_extensions(),
    {
        let mut r = self;
        r.extra_excluded_filenames.push(filename.to_owned());
        assert(r.extra_filenames() =~= self.extra_filenames().push(filename@));
        r
    }

    /// Whether a file is counted, given its final component `name` and its
    /// extension `ext` already in lowercase.
    pub fn should_count_parts(&self, name: Option<&str>, ext: Option<&str>) -> (r: bool)
        ensures
            r == self.admits(text_of(name), text_of(ext)),
    {
        match name {
            Some(n) => {
                if excluded_filename(n) || listed_in(&self.extra_excluded_filenames, n) {
                    return false;
                }
            },
            None => {},
        }
        match ext {
            Some(e) => {
                if media_extension(e) || data_extension(e) || doc_extension(e) || listed_in(
                    &self.extra_excluded_extensions,
                    e,
                ) {
                    return false;
                }
            },
            None => {},
        }
        true
    }

    /// Determines if a file should be counted based on its path.
    pub fn should_count(&self, path: &str) -> (r: bool)
        ensures
            r == self.counts_path(path@),
    {
        let name = file_name(path);
        match extension(path) {
            Some(e) => {
                let lower = lowercase(e);
                self.should_count_parts(name, Some(lower.as_str()))
            },
            None => self.should_count_parts(name, None),
        }
    }

    /// The paths of `paths` that are counted, in order.
    pub open spec fn kept_paths(&self, paths: Seq<Seq<char>>) -> Seq<Seq<char>>
        decreases paths.len(),
    {
        if paths.len() == 0 {
            Seq::empty()
        } else {
            let rest = self.kept_paths(paths.drop_last());
            if self.counts_path(paths.last()) {
                rest.push(paths.last())
            } else {
                rest
            }
        }
    }

    /// Filters a list of file paths, returning only those that should be
    /// counted, in their order.
    pub fn filter_files(&self, files: Vec<&str>) -> (r: Vec<String>)
        ensures
            texts(r@) == self.kept_paths(files@.map_values(|f: &str| f@)),
    {
        let ghost paths = files@.map_values(|f: &str| f@);
        let mut out: Vec<String> = Vec::new();
        let mut i: usize = 0;
        while i < files.len()
            invariant
                i <= files@.len(),
                paths == files@.map_values(|f: &str| f@),
                texts(out@) == self.kept_paths(paths.take(i as int)),
            decreases files@.len() - i,
        {
            assert(paths.take(i + 1).drop_last() =~= paths.take(i as int));
            assert(paths.take(i + 1).last() == files@[i as int]@);
            if self.should_count(files[i]) {
                let ghost before = out@;
                out.push(files[i].to_owned());
                assert(texts(out@) =~= texts(before).push(files@[i as int]@));
            }
            i = i + 1;
        }
        assert(paths.take(i as int) =~= paths);
        out
    }
}

} // verus!
