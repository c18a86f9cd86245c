//! The default disk path of each platform, and how a path given by the user
//! takes precedence over it.

use vstd::prelude::*;
use vstd::slice::*;
use vstd::string::*;
use vstd::utf8::encode_utf8;

verus! {

/// The families of operating system that have a default path of their own.
#[derive(Clone, Copy, Debug, PartialEq, Eq)]
pub enum Os {
    Windows,
    Macos,
    Linux,
    Other,
}

/// What a probe of the machine found of the marks that a Linux system running
/// under the Windows subsystem carries.
#[derive(Debug)]
pub struct WslProbe {
    /// The variable that names the distribution is set.
    pub distro_name_set: bool,
    /// The variable that names the interop socket is set.
    pub interop_set: bool,
    /// The subsystem's library directory exists.
    pub wsl_dir_exists: bool,
    /// The interop entry of the binary-format registry exists.
    pub interop_file_exists: bool,
    /// The kernel's version line, where it could be read.
    pub kernel_version: Option<String>,
}

/// A byte with an upper-case ASCII letter turned into its lower-case form.
pub open spec fn fold_ascii(b: u8) -> u8 {
    if 0x41 <= b <= 0x5A {
        (b + 0x20) as u8
    } else {
        b
    }
}

/// Whether `word` stands in `text` at offset `at`, upper and lower case of
/// ASCII letters in `text` taken as the same.
pub open spec fn occurs_at(text: Seq<u8>, word: Seq<u8>, at: int) -> bool {
    &&& 0 <= at
    &&& at + word.len() <= text.len()
    &&& forall|j: int| 0 <= j < word.len() ==> fold_ascii(#[trigger] text[at + j]) == word[j]
}

/// Whether `word` stands anywhere in `text`.
pub open spec fn mentions(text: Seq<u8>, word: Seq<u8>) -> bool {
    exists|at: int| occurs_at(text, word, at)
}

/// Searches the UTF-8 bytes of `text` for those of the lower-case `word`,
/// ignoring the case of ASCII letters in `text`.
pub fn mentions_word(text: &str, word: &str) -> (found: bool)
    ensures
        found == mentions(encode_utf8(text@), encode_utf8(word@)),
{
    let t = text.as_bytes();
    let w = word.as_bytes();
    let n = t.len();
    let m = w.len();
    if m > n {
        assert(forall|at: int| !occurs_at(t@, w@, at));
        return false;
    }
    let mut at: usize = 0;
    while at <= n - m
        invariant
            t@ == encode_utf8(text@),
            w@ == encode_utf8(word@),
            m <= n,
            n == t@.len(),
            m == w@.len(),
            at <= n - m + 1,
            forall|k: int| 0 <= k < at ==> !occurs_at(t@, w@, k),
        decreases n - m + 1 - at,
    {
        let mut j: usize = 0;
        let mut same = true;
        while j < m
            invariant
                m <= n,
                n == t@.len(),
                m == w@.len(),
                at <= n - m,
                j <= m,
                same ==> forall|i: int| 0 <= i < j ==> fold_ascii(#[trigger] t@[at + i]) == w@[i],
                !same ==> !occurs_at(t@, w@, at as int),
            decreases m - j,
        {
            let b = t[at + j];
            let folded = if 0x41 <= b && b <= 0x5A {
                b + 0x20
            } else {
                b
            };
            if folded != w[j] {
                same = false;
                assert(fold_ascii(t@[at + j]) != w@[j as int]);
            }
            j += 1;
        }
        if same {
            assert(occurs_at(t@, w@, at as int));
            return true;
        }
        at += 1;
    }
    assert(forall|k: int| !occurs_at(t@, w@, k));
    false
}

/// Whether the probe shows the Windows subsystem: either variable is set,
/// either path exists, or the kernel's version line names `microsoft` in any
/// mix of upper and lower case. Only a Linux system can be one.
pub open spec fn wsl_detected(os: Os, probe: WslProbe) -> bool {
    os == Os::Linux && (probe.distro_name_set || probe.interop_set || probe.wsl_dir_exists
        || probe.interop_file_exists || match probe.kernel_version {
        Some(line) => mentions(encode_utf8(line@), encode_utf8("microsoft"@)),
        None => false,
    })
}

/// Decides from a probe whether the system runs under the Windows subsystem.
pub fn is_wsl(os: Os, probe: &WslProbe) -> (hit: bool)
    ensures
        hit == wsl_detected(os, *probe),
{
    match os {
        Os::Linux => {},
        _ => {
            return false;
        },
    }
    if probe.distro_name_set || probe.interop_set || probe.wsl_dir_exists
        || probe.interop_file_exists {
        return true;
    }
    match &probe.kernel_version {
        Some(line) => mentions_word(line.as_str(), "microsoft"),
        None => false,
    }
}

/// The default disk path of a platform.
pub open spec fn default_path_text(os: Os, wsl: bool) -> Seq<char> {
    match os {
        Os::Windows => "C:"@,
        Os::Macos => "/System/Volumes/Data"@,
        Os::Linux => if wsl {
            "/usr/lib/wsl/drivers"@
        } else {
            "/"@
        },
        Os::Other => "/"@,
    }
}

/// Gives the default disk path of a platform; `wsl` matters on Linux only.
pub fn default_disk_path(os: Os, wsl: bool) -> (path: String)
    ensures
        path@ == default_path_text(os, wsl),
{
    match os {
        Os::Windows => "C:".to_owned(),
        Os::Macos => "/System/Volumes/Data".to_owned(),
        Os::Linux => {
            if wsl {
                "/usr/lib/wsl/drivers".to_owned()
            } else {
                "/".to_owned()
            }
        },
        Os::Other => "/".to_owned(),
    }
}

/// The characters that count as white space.
pub open spec fn is_whitespace(c: char) -> bool {
    let u = c as u32;
    ||| 0x09 <= u <= 0x0D
    ||| u == 0x20
    ||| u == 0x85
    ||| u == 0xA0
    ||| u == 0x1680
    ||| 0x2000 <= u <= 0x200A
    ||| u == 0x2028
    ||| u == 0x2029
    ||| u == 0x202F
    ||| u == 0x205F
    ||| u == 0x3000
}

/// Whether a text holds nothing but white space; the empty text does.
pub open spec fn is_blank_text(text: Seq<char>) -> bool {
    forall|i: int| 0 <= i < text.len() ==> is_whitespace(#[trigger] text[i])
}

/// Tells whether a text holds nothing but white space.
pub fn is_blank(text: &str) -> (blank: bool)
    ensures
        blank == is_blank_text(text@),
{
    let n = text.unicode_len();
    let mut i: usize = 0;
    while i < n
        invariant
            n == text@.len(),
            i <= n,
            forall|k: int| 0 <= k < i ==> is_whitespace(#[trigger] text@[k]),
        decreases n - i,
    {
        let u = text.get_char(i) as u32;
        let white = (0x09 <= u && u <= 0x0D) || u == 0x20 || u == 0x85 || u == 0xA0 || u == 0x1680
            || (0x2000 <= u && u <= 0x200A) || u == 0x2028 || u == 0x2029 || u == 0x202F || u
            == 0x205F || u == 0x3000;
        if !white {
            assert(!is_whitespace(text@[i as int]));
            return false;
        }
        i += 1;
    }
    true
}

/// The path to report on: the user's, unless none was given or it is blank.
pub open spec fn picked_path(user: Option<String>, os: Os, wsl: bool) -> Seq<char> {
    match user {
        Some(p) => if is_blank_text(p@) {
            default_path_text(os, wsl)
        } else {
            p@
        },
        None => default_path_text(os, wsl),
    }
}

/// Picks the user's path, unchanged, or falls back to the platform's default.
pub fn pick_path(user: Option<String>, os: Os, wsl: bool) -> (path: String)
    ensures
        path@ == picked_path(user, os, wsl),
{
    match user {
        Some(p) => {
            if is_blank(p.as_str()) {
                default_disk_path(os, wsl)
            } else {
                p
            }
        },
        None => default_disk_path(os, wsl),
    }
}

} // verus!
