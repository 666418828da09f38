//! Per-file rules of the repository walk: extensions, binary and generated
//! files, language classification, line counts and content hashes.
use vstd::prelude::*;

use crate::domain::types::{Language, LanguageView};
use crate::text::{
    after_last, after_last_exec, chars_of, contains_seq, contains_str, ends_with_str, has_suffix,
    string_of, to_lowercase, unicode_lowercase,
};

verus! {

/// One file discovered during the walk.
#[derive(Debug, Clone)]
pub struct FileEntry {
    pub path: String,
    pub size_bytes: u64,
    pub is_binary: bool,
    pub language: Option<Language>,
    /// BLAKE3 content hash (hex). Empty for binary or unhashed files.
    pub hash: String,
    /// True when the file looks vendored or machine-generated.
    pub is_generated: bool,
    /// Lines of text in the file.
    pub loc: usize,
}

/// The extension of a file name, as `Path::extension` gives it: the text
/// after the last `.`, unless there is no `.`, the only `.` starts the name,
/// or the name is `..`.
pub open spec fn file_extension(name: Seq<char>) -> Option<Seq<char>> {
    let ext = after_last(name, '.');
    if name == ".."@ || ext.len() == name.len() || ext.len() + 1 == name.len() {
        None
    } else {
        Some(ext)
    }
}

/// `after_last` gives a suffix of its input.
pub proof fn lemma_after_last_len(s: Seq<char>, c: char)
    ensures
        after_last(s, c).len() <= s.len(),
    decreases s.len(),
{
    if s.len() > 0 && s.last() != c {
        lemma_after_last_len(s.drop_last(), c);
    }
}

/// The extension of a file name (see [`file_extension`]).
pub fn file_extension_of(name: &str) -> (r: Option<String>)
    ensures
        match r {
            None => file_extension(name@) is None,
            Some(e) => file_extension(name@) == Some(e@),
        },
{
    let n = chars_of(name);
    let ext = after_last_exec(&n, '.');
    proof {
        lemma_after_last_len(n@, '.');
    }
    if super::super::licensing::copyleft::eq_lit(&n, "..") || ext.len() == n.len() || ext.len()
        + 1 == n.len() {
        None
    } else {
        Some(string_of(&ext))
    }
}

/// Extensions of files known to be binary (compared lower-cased).
pub open spec fn is_binary_ext(e: Seq<char>) -> bool {
    e == "png"@ || e == "jpg"@ || e == "jpeg"@ || e == "gif"@ || e == "bmp"@ || e == "ico"@ || e
        == "webp"@ || e == "pdf"@ || e == "zip"@ || e == "tar"@ || e == "gz"@ || e == "bz2"@ || e
        == "xz"@ || e == "7z"@ || e == "exe"@ || e == "dll"@ || e == "so"@ || e == "dylib"@ || e
        == "bin"@ || e == "class"@ || e == "jar"@ || e == "wasm"@ || e == "o"@ || e == "a"@ || e
        == "lib"@ || e == "pyc"@ || e == "woff"@ || e == "woff2"@ || e == "ttf"@ || e == "eot"@
        || e == "mp3"@ || e == "mp4"@ || e == "mov"@ || e == "avi"@ || e == "wav"@
}

/// Whether a (lower-cased) extension is a known binary one.
pub fn is_known_binary_extension(e: &str) -> (r: bool)
    ensures
        r == is_binary_ext(e@),
{
    let v = chars_of(e);
    let x = &v;
    eq(x, "png") || eq(x, "jpg") || eq(x, "jpeg") || eq(x, "gif") || eq(x, "bmp") || eq(x, "ico")
        || eq(x, "webp") || eq(x, "pdf") || eq(x, "zip") || eq(x, "tar") || eq(x, "gz") || eq(
        x,
        "bz2",
    ) || eq(x, "xz") || eq(x, "7z") || eq(x, "exe") || eq(x, "dll") || eq(x, "so") || eq(
        x,
        "dylib",
    ) || eq(x, "bin") || eq(x, "class") || eq(x, "jar") || eq(x, "wasm") || eq(x, "o") || eq(
        x,
        "a",
    ) || eq(x, "lib") || eq(x, "pyc") || eq(x, "woff") || eq(x, "woff2") || eq(x, "ttf") || eq(
        x,
        "eot",
    ) || eq(x, "mp3") || eq(x, "mp4") || eq(x, "mov") || eq(x, "avi") || eq(x, "wav")
}

fn eq(v: &Vec<char>, lit: &str) -> (r: bool)
    ensures
        r == (v@ == lit@),
{
    super::super::licensing::copyleft::eq_lit(v, lit)
}

/// Bytes of a file sampled for a null byte.
pub const BINARY_SAMPLE_LEN: usize = 8192;

/// A null byte among the first `BINARY_SAMPLE_LEN` bytes.
pub open spec fn has_null_in_sample(data: Seq<u8>) -> bool {
    exists|i: int| 0 <= i < data.len() && i < BINARY_SAMPLE_LEN && data[i] == 0
}

/// A file is binary by its extension (Unicode lower-cased, among the known
/// binary ones) or by a null byte among the first bytes of its contents
/// (when they could be read).
pub open spec fn is_binary_file(file_name: Seq<char>, contents: Option<Seq<u8>>) -> bool {
    (match file_extension(file_name) {
        Some(e) => is_binary_ext(unicode_lowercase(e)),
        None => false,
    }) || (match contents {
        Some(d) => has_null_in_sample(d),
        None => false,
    })
}

/// Whether the first `BINARY_SAMPLE_LEN` bytes hold a null byte.
pub fn sample_has_null(data: &[u8]) -> (r: bool)
    ensures
        r == has_null_in_sample(data@),
{
    let mut i: usize = 0;
    while i < data.len() && i < BINARY_SAMPLE_LEN
        invariant
            i <= data@.len(),
            forall|k: int| 0 <= k < i ==> data@[k] != 0,
        decreases data.len() - i,
    {
        if data[i] == 0 {
            return true;
        }
        i = i + 1;
    }
    false
}

/// Classify a file as binary by extension or by a null byte in its first
/// 8 KB (`contents` is `None` when the file could not be read).
pub fn detect_binary(file_name: &str, contents: Option<&[u8]>) -> (r: bool)
    ensures
        r == is_binary_file(
            file_name@,
            match contents {
                Some(d) => Some(d@),
                None => None,
            },
        ),
{
    let by_ext = match file_extension_of(file_name) {
        Some(e) => {
            let lower = to_lowercase(e.as_str());
            is_known_binary_extension(lower.as_str())
        },
        None => false,
    };
    if by_ext {
        return true;
    }
    match contents {
        Some(d) => sample_has_null(d),
        None => false,
    }
}

/// A path that looks vendored or machine-generated.
pub open spec fn is_generated_path(p: Seq<char>) -> bool {
    contains_seq(p, "/vendor/"@) || contains_seq(p, "/node_modules/"@) || has_suffix(
        p,
        ".min.js"@,
    ) || has_suffix(p, ".min.css"@)
}

/// A path with a `/vendor/` component is vendored, hence generated.
pub proof fn lemma_vendor_paths_are_generated(p: Seq<char>)
    requires
        contains_seq(p, "/vendor/"@),
    ensures
        is_generated_path(p),
{
}

/// A path with a `/node_modules/` component is vendored, hence generated.
pub proof fn lemma_node_modules_paths_are_generated(p: Seq<char>)
    requires
        contains_seq(p, "/node_modules/"@),
    ensures
        is_generated_path(p),
{
}

/// Minified scripts and style sheets (`.min.js`, `.min.css`) are generated.
pub proof fn lemma_minified_files_are_generated(p: Seq<char>)
    requires
        has_suffix(p, ".min.js"@) || has_suffix(p, ".min.css"@),
    ensures
        is_generated_path(p),
{
}

/// A path with none of those marks is not generated.
pub proof fn lemma_unmarked_paths_are_not_generated(p: Seq<char>)
    requires
        !contains_seq(p, "/vendor/"@),
        !contains_seq(p, "/node_modules/"@),
        !has_suffix(p, ".min.js"@),
        !has_suffix(p, ".min.css"@),
    ensures
        !is_generated_path(p),
{
}

/// Heuristic detection of vendored or generated files.
pub fn detect_generated(path: &str) -> (r: bool)
    ensures
        r == is_generated_path(path@),
{
    let p = chars_of(path);
    contains_str(&p, "/vendor/") || contains_str(&p, "/node_modules/") || ends_with_str(
        &p,
        ".min.js",
    ) || ends_with_str(&p, ".min.css")
}

/// The language of a (lower-cased) extension.
pub open spec fn language_of_ext(e: Seq<char>) -> Option<LanguageView> {
    if e == "rs"@ {
        Some(LanguageView::Rust)
    } else if e == "ts"@ || e == "tsx"@ || e == "js"@ || e == "jsx"@ || e == "mjs"@ || e
        == "cjs"@ {
        Some(LanguageView::TypeScript)
    } else if e == "py"@ || e == "pyi"@ {
        Some(LanguageView::Python)
    } else if e == "go"@ {
        Some(LanguageView::Go)
    } else if e == "java"@ {
        Some(LanguageView::Java)
    } else {
        None
    }
}

/// The language of a file name: that of its Unicode lower-cased extension.
pub open spec fn language_of_file(file_name: Seq<char>) -> Option<LanguageView> {
    match file_extension(file_name) {
        Some(e) => language_of_ext(unicode_lowercase(e)),
        None => None,
    }
}

proof fn lemma_after_last_of_dotted(stem: Seq<char>, ext: Seq<char>)
    requires
        !ext.contains('.'),
    ensures
        after_last(stem + seq!['.'] + ext, '.') == ext,
    decreases ext.len(),
{
    let s = stem + seq!['.'] + ext;
    if ext.len() == 0 {
        assert(s.last() == '.');
    } else {
        let e2 = ext.drop_last();
        assert(!e2.contains('.')) by {
            if e2.contains('.') {
                let k = choose|k: int| 0 <= k < e2.len() && e2[k] == '.';
                assert(ext[k] == '.');
            }
        }
        lemma_after_last_of_dotted(stem, e2);
        assert(s.last() == ext.last());
        assert(ext.last() != '.') by {
            assert(ext[ext.len() - 1] == ext.last());
        }
        assert(s.drop_last() =~= stem + seq!['.'] + e2);
        assert(e2.push(ext.last()) =~= ext);
    }
}

/// A name made of a non-empty stem, a `.` and a non-empty extension without
/// a `.` has that extension (`main.go` has `go`).
pub proof fn lemma_extension_of_dotted_name(stem: Seq<char>, ext: Seq<char>)
    requires
        stem.len() > 0,
        ext.len() > 0,
        !ext.contains('.'),
    ensures
        file_extension(stem + seq!['.'] + ext) == Some(ext),
{
    lemma_after_last_of_dotted(stem, ext);
    reveal_strlit("..");
}

proof fn lemma_after_last_without_dot(s: Seq<char>)
    requires
        !s.contains('.'),
    ensures
        after_last(s, '.') == s,
    decreases s.len(),
{
    if s.len() > 0 {
        let p = s.drop_last();
        assert(!p.contains('.')) by {
            if p.contains('.') {
                let k = choose|k: int| 0 <= k < p.len() && p[k] == '.';
                assert(s[k] == '.');
            }
        }
        lemma_after_last_without_dot(p);
        assert(s[s.len() - 1] == s.last());
        assert(p.push(s.last()) =~= s);
    }
}

/// A name without a `.` has no extension.
pub proof fn lemma_no_dot_no_extension(name: Seq<char>)
    requires
        !name.contains('.'),
    ensures
        file_extension(name) is None,
{
    lemma_after_last_without_dot(name);
}

/// A hidden file whose only `.` is the leading one (`.bashrc`) has no
/// extension.
pub proof fn lemma_hidden_file_no_extension(rest: Seq<char>)
    requires
        !rest.contains('.'),
    ensures
        file_extension(seq!['.'] + rest) is None,
{
    lemma_after_last_of_dotted(Seq::empty(), rest);
    assert(Seq::<char>::empty() + seq!['.'] + rest =~= seq!['.'] + rest);
}

/// Rust files: lower-cased extension `rs`.
pub proof fn lemma_rust_files(name: Seq<char>, ext: Seq<char>)
    requires
        file_extension(name) == Some(ext),
        unicode_lowercase(ext) == "rs"@,
    ensures
        language_of_file(name) == Some(LanguageView::Rust),
{
}

/// TypeScript and JavaScript files: lower-cased extension `ts`, `tsx`,
/// `js`, `jsx`, `mjs` or `cjs`.
pub proof fn lemma_typescript_files(name: Seq<char>, ext: Seq<char>)
    requires
        file_extension(name) == Some(ext),
        unicode_lowercase(ext) == "ts"@ || unicode_lowercase(ext) == "tsx"@ || unicode_lowercase(ext)
            == "js"@ || unicode_lowercase(ext) == "jsx"@ || unicode_lowercase(ext) == "mjs"@
            || unicode_lowercase(ext) == "cjs"@,
    ensures
        language_of_file(name) == Some(LanguageView::TypeScript),
{
    reveal_strlit("rs");
    reveal_strlit("ts");
    reveal_strlit("tsx");
    reveal_strlit("js");
    reveal_strlit("jsx");
    reveal_strlit("mjs");
    reveal_strlit("cjs");
    let l = unicode_lowercase(ext);
    assert(l[0] == 't' || l[0] == 'j' || l[0] == 'm' || l[0] == 'c');
    assert(l != "rs"@);
}

/// Python files: lower-cased extension `py` or `pyi`.
pub proof fn lemma_python_files(name: Seq<char>, ext: Seq<char>)
    requires
        file_extension(name) == Some(ext),
        unicode_lowercase(ext) == "py"@ || unicode_lowercase(ext) == "pyi"@,
    ensures
        language_of_file(name) == Some(LanguageView::Python),
{
    reveal_strlit("rs");
    reveal_strlit("ts");
    reveal_strlit("tsx");
    reveal_strlit("js");
    reveal_strlit("jsx");
    reveal_strlit("mjs");
    reveal_strlit("cjs");
    reveal_strlit("py");
    reveal_strlit("pyi");
    let l = unicode_lowercase(ext);
    assert(l[0] == 'p');
    assert(l != "rs"@ && l != "ts"@ && l != "tsx"@ && l != "js"@ && l != "jsx"@);
    assert(l != "mjs"@ && l != "cjs"@);
}

/// Go files: lower-cased extension `go`.
pub proof fn lemma_go_files(name: Seq<char>, ext: Seq<char>)
    requires
        file_extension(name) == Some(ext),
        unicode_lowercase(ext) == "go"@,
    ensures
        language_of_file(name) == Some(LanguageView::Go),
{
    reveal_strlit("rs");
    reveal_strlit("ts");
    reveal_strlit("tsx");
    reveal_strlit("js");
    reveal_strlit("jsx");
    reveal_strlit("mjs");
    reveal_strlit("cjs");
    reveal_strlit("py");
    reveal_strlit("pyi");
    reveal_strlit("go");
    let l = unicode_lowercase(ext);
    assert(l[0] == 'g');
    assert(l != "rs"@ && l != "ts"@ && l != "tsx"@ && l != "js"@ && l != "jsx"@);
    assert(l != "mjs"@ && l != "cjs"@ && l != "py"@ && l != "pyi"@);
}

/// Java files: lower-cased extension `java`.
pub proof fn lemma_java_files(name: Seq<char>, ext: Seq<char>)
    requires
        file_extension(name) == Some(ext),
        unicode_lowercase(ext) == "java"@,
    ensures
        language_of_file(name) == Some(LanguageView::Java),
{
    reveal_strlit("rs");
    reveal_strlit("ts");
    reveal_strlit("tsx");
    reveal_strlit("js");
    reveal_strlit("jsx");
    reveal_strlit("mjs");
    reveal_strlit("cjs");
    reveal_strlit("py");
    reveal_strlit("pyi");
    reveal_strlit("go");
    reveal_strlit("java");
    let l = unicode_lowercase(ext);
    assert(l[0] == 'j' && l.len() == 4);
    assert(l != "rs"@ && l != "ts"@ && l != "tsx"@ && l != "js"@ && l != "jsx"@);
    assert(l != "mjs"@ && l != "cjs"@ && l != "py"@ && l != "pyi"@ && l != "go"@);
}

/// A file without an extension, or whose lower-cased extension is none of
/// the listed ones, has no language.
pub proof fn lemma_other_files_unclassified(name: Seq<char>)
    requires
        forall|ext: Seq<char>|
            file_extension(name) == Some(ext) ==> {
                let l = #[trigger] unicode_lowercase(ext);
                &&& l != "rs"@ && l != "ts"@ && l != "tsx"@ && l != "js"@ && l != "jsx"@
                &&& l != "mjs"@ && l != "cjs"@ && l != "py"@ && l != "pyi"@ && l != "go"@
                &&& l != "java"@
            },
    ensures
        language_of_file(name) is None,
{
    match file_extension(name) {
        Some(e) => {
            let l = unicode_lowercase(e);
        },
        None => {},
    }
}

/// Classify a file's programming language by its extension.
pub fn classify_language(file_name: &str) -> (r: Option<Language>)
    ensures
        match r {
            None => language_of_file(file_name@) is None,
            Some(l) => language_of_file(file_name@) == Some(l@),
        },
{
    let e = match file_extension_of(file_name) {
        Some(e) => e,
        None => return None,
    };
    let lower = to_lowercase(e.as_str());
    let v = chars_of(lower.as_str());
    let x = &v;
    if eq(x, "rs") {
        Some(Language::Rust)
    } else if eq(x, "ts") || eq(x, "tsx") || eq(x, "js") || eq(x, "jsx") || eq(x, "mjs") || eq(
        x,
        "cjs",
    ) {
        Some(Language::TypeScript)
    } else if eq(x, "py") || eq(x, "pyi") {
        Some(Language::Python)
    } else if eq(x, "go") {
        Some(Language::Go)
    } else if eq(x, "java") {
        Some(Language::Java)
    } else {
        None
    }
}

/// The number of lines of a text, as `str::lines` counts them: one for
/// each character that starts a line (the first one, and each one right
/// after a `\n`).
pub open spec fn line_count(s: Seq<char>) -> int
    decreases s.len(),
{
    if s.len() == 0 {
        0
    } else if s.len() == 1 || s[s.len() - 2] == '\n' {
        line_count(s.drop_last()) + 1
    } else {
        line_count(s.drop_last())
    }
}

/// The number of text lines in a file's contents.
pub fn count_lines(text: &str) -> (r: usize)
    ensures
        r == line_count(text@),
{
    let s = chars_of(text);
    let mut n: usize = 0;
    let mut i: usize = 0;
    while i < s.len()
        invariant
            i <= s@.len(),
            n == line_count(s@.subrange(0, i as int)),
            n <= i,
        decreases s.len() - i,
    {
        let ghost nxt = s@.subrange(0, i + 1);
        assert(nxt.drop_last() =~= s@.subrange(0, i as int));
        if i == 0 || s[i - 1] == '\n' {
            n = n + 1;
        }
        i = i + 1;
    }
    assert(s@.subrange(0, s@.len() as int) =~= s@);
    n
}

/// The 32-byte BLAKE3 digest of `data`.
pub uninterp spec fn blake3_digest(data: Seq<u8>) -> Seq<u8>;

/// Calls `blake3::hash` and takes the bytes of the digest; they are the name
/// `blake3_digest` of the input, 32 of them (the crate's `OUT_LEN`). The
/// compression function behind them is not restated here.
#[verifier::external_body]
fn blake3_hash(data: &[u8]) -> (r: Vec<u8>)
    ensures
        r@ == blake3_digest(data@),
        r@.len() == 32,
{
    blake3::hash(data).as_bytes().to_vec()
}

/// A lower-case hex digit.
pub open spec fn hex_digit(n: u8) -> char {
    if n < 10 {
        (('0' as u8) + n) as char
    } else {
        (('a' as u8) + n - 10) as char
    }
}

/// Lower-case hex encoding of bytes, two digits per byte, high nibble
/// first (as `blake3::Hash::to_hex` writes it).
pub open spec fn hex_of(data: Seq<u8>) -> Seq<char>
    decreases data.len(),
{
    if data.len() == 0 {
        Seq::empty()
    } else {
        hex_of(data.drop_last()).push(hex_digit(data.last() / 16)).push(
            hex_digit(data.last() % 16),
        )
    }
}

fn hex_digit_exec(n: u8) -> (c: char)
    requires
        n < 16,
    ensures
        c == hex_digit(n),
{
    if n < 10 {
        (('0' as u8) + n) as char
    } else {
        (('a' as u8) + n - 10) as char
    }
}

/// The BLAKE3 content hash of a file's bytes, in lower-case hex.
pub fn content_hash(data: &[u8]) -> (r: String)
    ensures
        r@ == hex_of(blake3_digest(data@)),
        r@.len() == 64,
{
    let digest = blake3_hash(data);
    let mut out: Vec<char> = Vec::new();
    let mut i: usize = 0;
    while i < digest.len()
        invariant
            i <= digest@.len(),
            out@ == hex_of(digest@.subrange(0, i as int)),
            out@.len() == 2 * i,
        decreases digest.len() - i,
    {
        let b = digest[i];
        assert(digest@.subrange(0, i + 1).drop_last() =~= digest@.subrange(0, i as int));
        out.push(hex_digit_exec(b / 16));
        out.push(hex_digit_exec(b % 16));
        i = i + 1;
    }
    assert(digest@.subrange(0, digest@.len() as int) =~= digest@);
    string_of(&out)
}

/// The entry of one walked file: `path` is its path, `file_name` its last
/// component, `size_bytes` its length, `contents` its bytes and `text` their
/// UTF-8 decoding, each `None` when that failed. A binary file gets no
/// language, hash or line count; a text file whose bytes could not be read
/// gets an empty hash.
pub fn file_entry(
    path: &str,
    file_name: &str,
    size_bytes: u64,
    contents: Option<&[u8]>,
    text: Option<&str>,
) -> (e: FileEntry)
    ensures
        e.path@ == path@,
        e.size_bytes == size_bytes,
        e.is_binary == is_binary_file(
            file_name@,
            match contents {
                Some(d) => Some(d@),
                None => None,
            },
        ),
        e.is_generated == is_generated_path(path@),
        match e.language {
            None => e.is_binary || language_of_file(file_name@) is None,
            Some(l) => !e.is_binary && language_of_file(file_name@) == Some(l@),
        },
        e.hash@ == (if e.is_binary {
            Seq::<char>::empty()
        } else {
            match contents {
                Some(d) => hex_of(blake3_digest(d@)),
                None => Seq::<char>::empty(),
            }
        }),
        e.loc == (if e.is_binary {
            0
        } else {
            match text {
                Some(t) => line_count(t@),
                None => 0,
            }
        }),
{
    let is_binary = detect_binary(file_name, contents);
    let is_generated = detect_generated(path);
    let language = if is_binary {
        None
    } else {
        classify_language(file_name)
    };
    let hash = if is_binary {
        String::new()
    } else {
        match contents {
            Some(d) => content_hash(d),
            None => String::new(),
        }
    };
    let loc = if is_binary {
        0
    } else {
        match text {
            Some(t) => count_lines(t),
            None => 0,
        }
    };
    FileEntry { path: path.to_owned(), size_bytes, is_binary, language, hash, is_generated, loc }
}

} // verus!
