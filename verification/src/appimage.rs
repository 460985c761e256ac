//! AppImages: the names of their files and of their desktop entries, and
//! what a desktop entry says.
use vstd::prelude::*;
use sha2::Digest;
use crate::box_ops::{last_index, last_index_exec, lemma_last_index_bound};
use crate::text::{chars_of, concat2, concat5, slice_chars, string_from_chars, texts, to_lowercase, unicode_lowercase};

verus! {

/// The directory, under the home directory, that AppImages are kept in.
pub open spec fn appimage_dir() -> Seq<char> {
    ".local/share/applications/appimages"@
}

/// The directory, under the home directory, of desktop entries.
pub open spec fn desktop_dir() -> Seq<char> {
    ".local/share/applications"@
}

/// The directory, under the home directory, that AppImages are kept in.
pub fn appimage_dir_exec() -> (r: &'static str)
    ensures
        r@ == appimage_dir(),
{
    ".local/share/applications/appimages"
}

/// The directory, under the home directory, of desktop entries.
pub fn desktop_dir_exec() -> (r: &'static str)
    ensures
        r@ == desktop_dir(),
{
    ".local/share/applications"
}

/// The file an AppImage named `name` is kept in.
pub fn appimage_file_name(name: &str) -> (r: String)
    ensures
        r@ == name@ + ".AppImage"@,
{
    concat2(name, ".AppImage")
}

/// The desktop entry file of an AppImage: its name in lower case, then
/// `.desktop`.
pub fn desktop_file_name(name: &str) -> (r: String)
    ensures
        r@ == unicode_lowercase(name@) + ".desktop"@,
{
    let lower = to_lowercase(name);
    concat2(lower.as_str(), ".desktop")
}

/// The desktop entry of an AppImage named `name` kept at `path`.
pub open spec fn desktop_entry_text(name: Seq<char>, path: Seq<char>) -> Seq<char> {
    "[Desktop Entry]\nType=Application\nName="@ + name + "\nExec="@ + path
        + "\nIcon=application-x-executable\nCategories=Utility;\nTerminal=false\n"@
}

/// The desktop entry of an AppImage named `name` kept at `path`.
pub fn desktop_entry(name: &str, path: &str) -> (r: String)
    ensures
        r@ == desktop_entry_text(name@, path@),
{
    concat5(
        "[Desktop Entry]\nType=Application\nName=",
        name,
        "\nExec=",
        path,
        "\nIcon=application-x-executable\nCategories=Utility;\nTerminal=false\n",
    )
}

/// The name of the AppImage a file holds, from the file's name: the part
/// before its extension, where that extension is `AppImage` (as
/// `Path::extension` and `Path::file_stem` read a name: after and before
/// its last dot, unless that dot begins the name).
pub open spec fn appimage_of_file(f: Seq<char>) -> Option<Seq<char>> {
    match last_index(f, '.') {
        Some(i) => if i > 0 && f.skip(i + 1) == "AppImage"@ {
            Some(f.take(i))
        } else {
            None
        },
        None => None,
    }
}

/// The names of the AppImages among files of the given names, in order.
pub open spec fn appimages_among(fs: Seq<Seq<char>>) -> Seq<Seq<char>>
    decreases fs.len(),
{
    if fs.len() == 0 {
        Seq::empty()
    } else {
        appimages_among(fs.drop_last()) + match appimage_of_file(fs.last()) {
            Some(n) => seq![n],
            None => Seq::empty(),
        }
    }
}

/// The name of the AppImage a file holds, from the file's name.
fn appimage_of_file_exec(f: &str) -> (r: Option<String>)
    ensures
        match r { Some(n) => appimage_of_file(f@) == Some(n@), None => appimage_of_file(f@) is None },
{
    let fv = chars_of(f);
    match last_index_exec(&fv, '.') {
        Some(i) => {
            proof {
                lemma_last_index_bound(fv@, '.');
            }
            let n = fv.len();
            assert(i < n);
            let start: usize = i + 1;
            let ext = slice_chars(&fv, start, n);
            assert(ext@ =~= fv@.skip(i + 1));
            let want = chars_of("AppImage");
            let same = ext.len() == want.len() && crate::text::occurs_at_exec(&ext, &want, 0);
            proof {
                if same {
                    assert(ext@.subrange(0, want@.len() as int) =~= ext@);
                }
                if ext@ == want@ {
                    assert(ext@.subrange(0, want@.len() as int) =~= want@);
                }
            }
            if i > 0 && same {
                let stem = slice_chars(&fv, 0, i);
                assert(stem@ =~= fv@.take(i as int));
                Some(string_from_chars(&stem))
            } else {
                None
            }
        },
        None => None,
    }
}

/// The names of the AppImages among files of the given names, in order.
pub fn list_appimages(file_names: &Vec<String>) -> (r: Vec<String>)
    ensures
        texts(r@) == appimages_among(texts(file_names@)),
{
    let ghost fs = texts(file_names@);
    let mut r: Vec<String> = Vec::new();
    let mut i: usize = 0;
    assert(texts(r@) =~= appimages_among(fs.take(0)));
    while i < file_names.len()
        invariant
            i <= file_names@.len(),
            fs == texts(file_names@),
            texts(r@) == appimages_among(fs.take(i as int)),
        decreases file_names.len() - i,
    {
        assert(fs.take(i + 1).drop_last() =~= fs.take(i as int));
        assert(fs.take(i + 1).last() == file_names@[i as int]@);
        let ghost before = texts(r@);
        match appimage_of_file_exec(file_names[i].as_str()) {
            Some(n) => {
                let ghost nv = n@;
                r.push(n);
                assert(texts(r@) =~= before + seq![nv]);
            },
            None => {
                assert(texts(r@) =~= before + Seq::<Seq<char>>::empty());
            },
        }
        i = i + 1;
    }
    assert(fs.take(file_names@.len() as int) =~= fs);
    r
}

/// What SHA-256 makes of some bytes.
pub uninterp spec fn sha256_digest(data: Seq<u8>) -> Seq<u8>;

/// The SHA-256 digest of `data`, from `sha2::Sha256` (`new`, `update`,
/// `finalize`): 32 bytes, named by `sha256_digest`.
#[verifier::external_body]
fn sha256(data: &[u8]) -> (r: Vec<u8>)
    ensures
        r@ == sha256_digest(data@),
        r@.len() == 32,
{
    let mut hasher = sha2::Sha256::new();
    hasher.update(data);
    hasher.finalize().to_vec()
}

/// The lowercase hexadecimal digit of a value below 16.
pub open spec fn hex_digit(n: int) -> char {
    if n < 10 {
        ('0' as int + n) as char
    } else {
        ('a' as int + n - 10) as char
    }
}

/// The lowercase hexadecimal text of some bytes: two digits for each, the
/// high one first.
pub open spec fn hex_lower(b: Seq<u8>) -> Seq<char>
    decreases b.len(),
{
    if b.len() == 0 {
        Seq::empty()
    } else {
        hex_lower(b.drop_last()) + seq![hex_digit(b.last() as int / 16), hex_digit(b.last() as int % 16)]
    }
}

/// `hex::encode`: the lowercase hexadecimal text of some bytes, two digits
/// for each byte, the high one first.
#[verifier::external_body]
fn hex_encode(b: &[u8]) -> (r: String)
    ensures
        r@ == hex_lower(b@),
{
    hex::encode(b)
}

/// The code of a character with ASCII capitals lowered.
pub open spec fn lower_code(c: char) -> u32 {
    if 65 <= (c as u32) <= 90 {
        ((c as u32) + 32) as u32
    } else {
        c as u32
    }
}

/// `a` and `b` are equal but for the case of ASCII letters (as
/// `str::eq_ignore_ascii_case`).
pub open spec fn same_ignoring_ascii_case(a: Seq<char>, b: Seq<char>) -> bool {
    a.len() == b.len() && forall|i: int| 0 <= i < a.len() ==> lower_code(#[trigger] a[i]) == lower_code(b[i])
}

/// The code of a character with ASCII capitals lowered.
fn lower_code_exec(c: char) -> (r: u32)
    ensures
        r == lower_code(c),
{
    let x = c as u32;
    if 65 <= x && x <= 90 {
        x + 32
    } else {
        x
    }
}

/// Whether `a` and `b` are equal but for the case of ASCII letters.
fn same_ignoring_ascii_case_exec(a: &str, b: &str) -> (r: bool)
    ensures
        r == same_ignoring_ascii_case(a@, b@),
{
    let av = chars_of(a);
    let bv = chars_of(b);
    if av.len() != bv.len() {
        return false;
    }
    let mut i: usize = 0;
    while i < av.len()
        invariant
            i <= av@.len(),
            av@.len() == bv@.len(),
            av@ == a@,
            bv@ == b@,
            forall|k: int| 0 <= k < i ==> lower_code(#[trigger] av@[k]) == lower_code(bv@[k]),
        decreases av.len() - i,
    {
        if lower_code_exec(av[i]) != lower_code_exec(bv[i]) {
            return false;
        }
        i = i + 1;
    }
    true
}

/// Whether the contents of an AppImage have the expected SHA-256 hash,
/// written in hexadecimal in either case.
pub fn verify_appimage_hash(contents: &[u8], expected_hash: &str) -> (r: bool)
    ensures
        r == same_ignoring_ascii_case(hex_lower(sha256_digest(contents@)), expected_hash@),
{
    let digest = sha256(contents);
    let text = hex_encode(digest.as_slice());
    same_ignoring_ascii_case_exec(text.as_str(), expected_hash)
}

} // verus!
