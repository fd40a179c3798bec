//! The tool's settings file, `config.toml`: the fonts to list and the sample
//! text to draw in each of them.
//!
//! The file is read as a subset of TOML:
//! - a UTF-8 byte order mark at its start is skipped;
//! - a line is what lies between two `\n` bytes; spaces, tabs and `\r`
//!   are blanks;
//! - a line that is blank, or whose first other byte is `#`, says nothing;
//! - a line that starts with `[` opens a table; the settings are top-level
//!   keys, so every line from there on is ignored;
//! - a top-level line `test_text = "..."` sets the sample text, and a line
//!   `fonts = ["...", "...", ...]` the font list; the array may run over
//!   several lines, with `#` comments between its items, and may end with a
//!   comma; after a value only blanks and a `#` comment may follow on its
//!   line;
//! - strings are TOML basic strings on one line, with the escapes `\"`,
//!   `\\`, `\n`, `\t` and `\r`, and hold UTF-8;
//! - every other line is ignored;
//! - a value of `test_text` or `fonts` that breaks these rules, a key that is
//!   set twice, or a string that is no UTF-8, makes the file invalid.

use vstd::prelude::*;
use vstd::slice::slice_subrange;
use vstd::utf8::{decode_utf8, valid_utf8};

use crate::items::system_font_names;
use crate::layout::PREVIEW_TEXT;

verus! {

/// Why a settings file was refused.
#[derive(Clone, Copy, PartialEq, Eq, Debug)]
pub enum ConfigError {
    /// A value of `test_text` or `fonts` that is not of the form described.
    InvalidValue,
    /// `test_text` or `fonts` set twice.
    DuplicateKey,
    /// A string of a setting that is not valid UTF-8.
    InvalidUtf8,
}

/// The settings a file gives; `None` where it leaves one unset.
pub struct Config {
    pub test_text: Option<String>,
    pub fonts: Option<Vec<String>>,
}

pub open spec fn is_blank(c: u8) -> bool {
    c == 0x20 || c == 0x09 || c == 0x0D
}

pub open spec fn is_bare_key_byte(c: u8) -> bool {
    (0x41 <= c <= 0x5A) || (0x61 <= c <= 0x7A) || (0x30 <= c <= 0x39) || c == 0x5F || c == 0x2D
}

/// The first position at or after `i` that holds no blank.
pub open spec fn skip_blank(l: Seq<u8>, i: int) -> int
    decreases l.len() - i,
{
    if 0 <= i < l.len() && is_blank(l[i]) {
        skip_blank(l, i + 1)
    } else {
        i
    }
}

/// The first position at or after `i` that holds no bare-key byte.
pub open spec fn key_end(l: Seq<u8>, i: int) -> int
    decreases l.len() - i,
{
    if 0 <= i < l.len() && is_bare_key_byte(l[i]) {
        key_end(l, i + 1)
    } else {
        i
    }
}

/// The byte that an escape `\c` stands for.
pub open spec fn escaped_byte(c: u8) -> Option<u8> {
    if c == 0x22 {
        Some(0x22u8)
    } else if c == 0x5C {
        Some(0x5Cu8)
    } else if c == 0x6E {
        Some(0x0Au8)
    } else if c == 0x74 {
        Some(0x09u8)
    } else if c == 0x72 {
        Some(0x0Du8)
    } else {
        None
    }
}

/// The content of a basic string whose opening quote lies just before
/// position `j`, and the position after its closing quote.
pub open spec fn string_body(l: Seq<u8>, j: int) -> Option<(Seq<u8>, int)>
    decreases l.len() - j,
{
    if j < 0 || j >= l.len() {
        None
    } else if l[j] == 0x0A {
        None
    } else if l[j] == 0x22 {
        Some((Seq::<u8>::empty(), j + 1))
    } else if l[j] == 0x5C {
        if j + 1 >= l.len() {
            None
        } else {
            match escaped_byte(l[j + 1]) {
                Some(b) => match string_body(l, j + 2) {
                    Some((rest, e)) => Some((seq![b] + rest, e)),
                    None => None,
                },
                None => None,
            }
        }
    } else {
        match string_body(l, j + 1) {
            Some((rest, e)) => Some((seq![l[j]] + rest, e)),
            None => None,
        }
    }
}

/// `skip_blank` moves forward, stays within the line, and stops at a
/// byte that is no blank.
pub proof fn lemma_skip_blank(l: Seq<u8>, i: int)
    ensures
        skip_blank(l, i) >= i,
        0 <= i ==> 0 <= skip_blank(l, i),
        i <= l.len() ==> skip_blank(l, i) <= l.len(),
        0 <= i ==> (skip_blank(l, i) < l.len() ==> !is_blank(l[skip_blank(l, i)])),
    decreases l.len() - i,
{
    if 0 <= i < l.len() && is_blank(l[i]) {
        lemma_skip_blank(l, i + 1);
    }
}

/// `key_end` moves forward and stays within the line.
pub proof fn lemma_key_end(l: Seq<u8>, i: int)
    ensures
        key_end(l, i) >= i,
        i <= l.len() ==> key_end(l, i) <= l.len(),
    decreases l.len() - i,
{
    if 0 <= i < l.len() && is_bare_key_byte(l[i]) {
        lemma_key_end(l, i + 1);
    }
}

/// A string ends after the position where its content starts, within the
/// line.
pub proof fn lemma_string_body(l: Seq<u8>, j: int)
    ensures
        string_body(l, j) matches Some((_, e)) ==> j < e <= l.len(),
    decreases l.len() - j,
{
    if 0 <= j < l.len() && l[j] != 0x22 {
        if l[j] == 0x5C {
            if j + 1 < l.len() {
                lemma_string_body(l, j + 2);
            }
        } else {
            lemma_string_body(l, j + 1);
        }
    }
}

/// The strings of an array from position `j` on, `j` lying just after its
/// `[` or after a `,`, and the position after its `]`.
pub open spec fn array_rest(l: Seq<u8>, j: int) -> Option<(Seq<Seq<u8>>, int)>
    decreases l.len() - j,
{
    let k = skip_space(l, j);
    if 0 <= j && k < l.len() && l[k] == 0x5D {
        Some((Seq::<Seq<u8>>::empty(), k + 1))
    } else if 0 <= j && k < l.len() && l[k] == 0x22 {
        match string_body(l, k + 1) {
            Some((s, e)) => {
                let m = skip_space(l, e);
                if m < l.len() && l[m] == 0x5D {
                    Some((seq![s], m + 1))
                } else if m < l.len() && l[m] == 0x2C {
                    proof {
                        lemma_skip_space(l, j);
                        lemma_string_body(l, k + 1);
                        lemma_skip_space(l, e);
                    }
                    match array_rest(l, m + 1) {
                        Some((rest, f)) => Some((seq![s] + rest, f)),
                        None => None,
                    }
                } else {
                    None
                }
            },
            None => None,
        }
    } else {
        None
    }
}

/// The first position at or after `i` that holds neither a blank, nor a
/// `\n`, nor a `#` comment: the space between the items of an array.
pub open spec fn skip_space(l: Seq<u8>, i: int) -> int
    decreases l.len() - i,
{
    if 0 <= i < l.len() && (is_blank(l[i]) || l[i] == 0x0A) {
        skip_space(l, i + 1)
    } else if 0 <= i < l.len() && l[i] == 0x23 {
        proof {
            lemma_line_end(l, i + 1);
        }
        skip_space(l, line_end(l, i + 1))
    } else {
        i
    }
}

/// `skip_space` moves forward and stays within the file.
pub proof fn lemma_skip_space(l: Seq<u8>, i: int)
    ensures
        skip_space(l, i) >= i,
        0 <= i <= l.len() ==> skip_space(l, i) <= l.len(),
    decreases l.len() - i,
{
    if 0 <= i < l.len() && (is_blank(l[i]) || l[i] == 0x0A) {
        lemma_skip_space(l, i + 1);
    } else if 0 <= i < l.len() && l[i] == 0x23 {
        lemma_line_end(l, i + 1);
        lemma_skip_space(l, line_end(l, i + 1));
    }
}

/// An array ends after the position where its items start, within the file.
pub proof fn lemma_array_rest(l: Seq<u8>, j: int)
    requires
        0 <= j <= l.len(),
    ensures
        array_rest(l, j) matches Some((_, e)) ==> j < e <= l.len(),
    decreases l.len() - j,
{
    lemma_skip_space(l, j);
    let k = skip_space(l, j);
    if k < l.len() && l[k] == 0x22 {
        lemma_string_body(l, k + 1);
        match string_body(l, k + 1) {
            Some((s, e)) => {
                lemma_skip_space(l, e);
                let m = skip_space(l, e);
                if m < l.len() && l[m] == 0x2C {
                    lemma_array_rest(l, m + 1);
                }
            },
            None => {},
        }
    }
}

/// Whether nothing but blanks and a comment follow position `i` on its line.
pub open spec fn rest_is_comment(l: Seq<u8>, i: int) -> bool {
    let k = skip_blank(l, i);
    k >= l.len() || l[k] == 0x23 || l[k] == 0x0A
}

/// What one line of the file says.
pub enum ConfigLine {
    /// Nothing that the settings read.
    Ignored,
    /// A table header.
    Table,
    /// `test_text` with the bytes of its string.
    TestText(Seq<u8>),
    /// `fonts` with the bytes of its strings.
    Fonts(Seq<Seq<u8>>),
    /// A value of `test_text` or `fonts` that is not of the form described.
    Invalid,
}

pub open spec fn test_text_key() -> Seq<u8> {
    seq![0x74u8, 0x65, 0x73, 0x74, 0x5F, 0x74, 0x65, 0x78, 0x74]
}

pub open spec fn fonts_key() -> Seq<u8> {
    seq![0x66u8, 0x6F, 0x6E, 0x74, 0x73]
}

/// What the line that starts at `s` says (see the module's description),
/// and the end of the last line its value takes: the `\n` after it, or the
/// end of the file.
pub open spec fn classify_at(b: Seq<u8>, s: int) -> (ConfigLine, int) {
    let i = skip_blank(b, s);
    let eol = line_end(b, s);
    if i >= b.len() || b[i] == 0x23 || b[i] == 0x0A {
        (ConfigLine::Ignored, eol)
    } else if b[i] == 0x5B {
        (ConfigLine::Table, eol)
    } else {
        let k = key_end(b, i);
        let key = b.subrange(i, k);
        let e = skip_blank(b, k);
        if !(e < b.len() && b[e] == 0x3D) {
            (ConfigLine::Ignored, eol)
        } else {
            let v = skip_blank(b, e + 1);
            if key == test_text_key() {
                if v < b.len() && b[v] == 0x22 {
                    match string_body(b, v + 1) {
                        Some((t, end)) => if rest_is_comment(b, end) {
                            (ConfigLine::TestText(t), eol)
                        } else {
                            (ConfigLine::Invalid, eol)
                        },
                        None => (ConfigLine::Invalid, eol),
                    }
                } else {
                    (ConfigLine::Invalid, eol)
                }
            } else if key == fonts_key() {
                if v < b.len() && b[v] == 0x5B {
                    match array_rest(b, v + 1) {
                        Some((items, end)) => if rest_is_comment(b, end) {
                            (ConfigLine::Fonts(items), line_end(b, end))
                        } else {
                            (ConfigLine::Invalid, eol)
                        },
                        None => (ConfigLine::Invalid, eol),
                    }
                } else {
                    (ConfigLine::Invalid, eol)
                }
            } else {
                (ConfigLine::Ignored, eol)
            }
        }
    }
}

/// A line's value ends at or after the line's start, within the file.
pub proof fn lemma_classify_at(b: Seq<u8>, s: int)
    requires
        0 <= s <= b.len(),
    ensures
        s <= classify_at(b, s).1 <= b.len(),
{
    lemma_line_end(b, s);
    lemma_skip_blank(b, s);
    let i = skip_blank(b, s);
    if i < b.len() && b[i] != 0x23 && b[i] != 0x0A && b[i] != 0x5B {
        lemma_key_end(b, i);
        let k = key_end(b, i);
        lemma_skip_blank(b, k);
        let e = skip_blank(b, k);
        if e < b.len() && b[e] == 0x3D {
            lemma_skip_blank(b, e + 1);
            let v = skip_blank(b, e + 1);
            if v < b.len() && b[v] == 0x5B {
                lemma_array_rest(b, v + 1);
                match array_rest(b, v + 1) {
                    Some((items, end)) => {
                        lemma_line_end(b, end);
                    },
                    None => {},
                }
            }
        }
    }
}

/// The settings read so far, their strings still as bytes.
pub struct RawConfig {
    pub in_table: bool,
    pub test_text: Option<Seq<u8>>,
    pub fonts: Option<Seq<Seq<u8>>>,
}

/// The settings after one more line.
pub open spec fn step(st: RawConfig, line: ConfigLine) -> Result<RawConfig, ConfigError> {
    if st.in_table {
        Ok(st)
    } else {
        match line {
            ConfigLine::Ignored => Ok(st),
            ConfigLine::Table => Ok(RawConfig { in_table: true, ..st }),
            ConfigLine::TestText(s) => if st.test_text is Some {
                Err(ConfigError::DuplicateKey)
            } else {
                Ok(RawConfig { test_text: Some(s), ..st })
            },
            ConfigLine::Fonts(f) => if st.fonts is Some {
                Err(ConfigError::DuplicateKey)
            } else {
                Ok(RawConfig { fonts: Some(f), ..st })
            },
            ConfigLine::Invalid => Err(ConfigError::InvalidValue),
        }
    }
}

/// The end of the line that starts at `start`: its first `\n`, or the end
/// of the file.
pub open spec fn line_end(b: Seq<u8>, start: int) -> int
    decreases b.len() - start,
{
    if 0 <= start < b.len() && b[start] != 0x0A {
        line_end(b, start + 1)
    } else {
        start
    }
}

/// `line_end` moves forward, stays within the file, and stops at a `\n`.
pub proof fn lemma_line_end(b: Seq<u8>, start: int)
    ensures
        line_end(b, start) >= start,
        start <= b.len() ==> line_end(b, start) <= b.len(),
        0 <= start ==> (line_end(b, start) < b.len() ==> b[line_end(b, start)] == 0x0A),
    decreases b.len() - start,
{
    if 0 <= start < b.len() && b[start] != 0x0A {
        lemma_line_end(b, start + 1);
    }
}

/// The settings after the lines from `start` to the end of the file.
pub open spec fn parse_lines(b: Seq<u8>, start: int, st: RawConfig) -> Result<RawConfig, ConfigError>
    decreases b.len() - start,
{
    if start < 0 || start > b.len() {
        Ok(st)
    } else {
        let (line, end) = classify_at(b, start);
        match step(st, line) {
            Err(e) => Err(e),
            Ok(next) => if end >= b.len() {
                Ok(next)
            } else {
                proof {
                    lemma_classify_at(b, start);
                }
                parse_lines(b, end + 1, next)
            },
        }
    }
}

/// The length of the UTF-8 byte order mark at the start of the file, if it
/// has one.
pub open spec fn bom_len(b: Seq<u8>) -> int {
    if b.len() >= 3 && b[0] == 0xEF && b[1] == 0xBB && b[2] == 0xBF {
        3
    } else {
        0
    }
}

/// The settings of a whole file, their strings still as bytes.
pub open spec fn raw_config(b: Seq<u8>) -> Result<RawConfig, ConfigError> {
    parse_lines(b, bom_len(b), RawConfig { in_table: false, test_text: None, fonts: None })
}

/// Whether every string of the settings is valid UTF-8.
pub open spec fn raw_config_utf8(c: RawConfig) -> bool {
    &&& (c.test_text matches Some(t) ==> valid_utf8(t))
    &&& (c.fonts matches Some(f) ==> forall|i: int| 0 <= i < f.len() ==> valid_utf8(#[trigger] f[i]))
}

/// Whether `config` holds the settings of `raw` as text.
pub open spec fn config_matches(config: Config, raw: RawConfig) -> bool {
    &&& match raw.test_text {
        Some(t) => config.test_text matches Some(s) && s@ == decode_utf8(t),
        None => config.test_text is None,
    }
    &&& match raw.fonts {
        Some(f) => config.fonts matches Some(v) && v@.len() == f.len() && forall|i: int|
            0 <= i < f.len() ==> (#[trigger] v@[i])@ == decode_utf8(f[i]),
        None => config.fonts is None,
    }
}


/// `String::from_utf8` on a copy of the bytes: the text they encode, or
/// `None` when they are not valid UTF-8.
#[verifier::external_body]
fn string_from_utf8(bytes: &[u8]) -> (r: Option<String>)
    ensures
        r is Some <==> valid_utf8(bytes@),
        r matches Some(s) ==> s@ == decode_utf8(bytes@),
{
    String::from_utf8(bytes.to_vec()).ok()
}

fn is_blank_byte(c: u8) -> (r: bool)
    ensures
        r == is_blank(c),
{
    c == 0x20 || c == 0x09 || c == 0x0D
}

fn skip_blank_at(l: &[u8], i: usize) -> (r: usize)
    requires
        i <= l@.len(),
    ensures
        r == skip_blank(l@, i as int),
        i <= r <= l@.len(),
{
    let mut k = i;
    while k < l.len() && is_blank_byte(l[k])
        invariant
            i <= k <= l@.len(),
            skip_blank(l@, i as int) == skip_blank(l@, k as int),
        decreases l@.len() - k,
    {
        k += 1;
    }
    k
}

fn key_end_at(l: &[u8], i: usize) -> (r: usize)
    requires
        i <= l@.len(),
    ensures
        r == key_end(l@, i as int),
        i <= r <= l@.len(),
{
    let mut k = i;
    while k < l.len() && ((0x41 <= l[k] && l[k] <= 0x5A) || (0x61 <= l[k] && l[k] <= 0x7A) || (
    0x30 <= l[k] && l[k] <= 0x39) || l[k] == 0x5F || l[k] == 0x2D)
        invariant
            i <= k <= l@.len(),
            key_end(l@, i as int) == key_end(l@, k as int),
        decreases l@.len() - k,
    {
        k += 1;
    }
    k
}

fn line_end_at(b: &[u8], start: usize) -> (r: usize)
    requires
        start <= b@.len(),
    ensures
        r == line_end(b@, start as int),
        start <= r <= b@.len(),
{
    let mut k = start;
    while k < b.len() && b[k] != 0x0A
        invariant
            start <= k <= b@.len(),
            line_end(b@, start as int) == line_end(b@, k as int),
        decreases b@.len() - k,
    {
        k += 1;
    }
    k
}

fn escaped_byte_of(c: u8) -> (r: Option<u8>)
    ensures
        r == escaped_byte(c),
{
    if c == 0x22 {
        Some(0x22)
    } else if c == 0x5C {
        Some(0x5C)
    } else if c == 0x6E {
        Some(0x0A)
    } else if c == 0x74 {
        Some(0x09)
    } else if c == 0x72 {
        Some(0x0D)
    } else {
        None
    }
}

fn skip_space_at(l: &[u8], i: usize) -> (r: usize)
    requires
        i <= l@.len(),
    ensures
        r == skip_space(l@, i as int),
        i <= r <= l@.len(),
{
    let mut k = i;
    loop
        invariant
            i <= k <= l@.len(),
            skip_space(l@, i as int) == skip_space(l@, k as int),
        decreases l@.len() - k,
    {
        if k < l.len() && (is_blank_byte(l[k]) || l[k] == 0x0A) {
            k += 1;
        } else if k < l.len() && l[k] == 0x23 {
            k = line_end_at(l, k + 1);
        } else {
            return k;
        }
    }
}

/// `r` with `acc` put before its content.
pub open spec fn prepend_bytes(acc: Seq<u8>, r: Option<(Seq<u8>, int)>) -> Option<(Seq<u8>, int)> {
    match r {
        Some((s, e)) => Some((acc + s, e)),
        None => None,
    }
}

/// The content of the basic string whose content starts at `j`, and the
/// position after its closing quote (see `string_body`).
fn string_body_at(l: &[u8], j: usize) -> (r: Option<(Vec<u8>, usize)>)
    requires
        j <= l@.len(),
    ensures
        match string_body(l@, j as int) {
            Some((s, e)) => r matches Some((v, e2)) && v@ == s && e2 == e,
            None => r is None,
        },
        r matches Some((_, e)) ==> e <= l@.len(),
{
    let mut acc: Vec<u8> = Vec::new();
    let mut p = j;
    assert(prepend_bytes(acc@, string_body(l@, j as int)) =~= string_body(l@, j as int)) by {
        match string_body(l@, j as int) {
            Some((s, e)) => assert(acc@ + s =~= s),
            None => {},
        }
    }
    while p < l.len()
        invariant
            j <= p <= l@.len(),
            string_body(l@, j as int) == prepend_bytes(acc@, string_body(l@, p as int)),
        decreases l@.len() - p,
    {
        let ghost old_acc = acc@;
        if l[p] == 0x0A {
            return None;
        } else if l[p] == 0x22 {
            assert(old_acc + Seq::<u8>::empty() =~= old_acc);
            return Some((acc, p + 1));
        } else if l[p] == 0x5C {
            if p + 1 >= l.len() {
                return None;
            }
            match escaped_byte_of(l[p + 1]) {
                Some(b) => {
                    acc.push(b);
                    proof {
                        match string_body(l@, p + 2) {
                            Some((rest, e)) => assert(old_acc + (seq![b] + rest) =~= acc@ + rest),
                            None => {},
                        }
                    }
                    p += 2;
                },
                None => {
                    return None;
                },
            }
        } else {
            let c = l[p];
            acc.push(c);
            proof {
                match string_body(l@, p + 1) {
                    Some((rest, e)) => assert(old_acc + (seq![c] + rest) =~= acc@ + rest),
                    None => {},
                }
            }
            p += 1;
        }
    }
    None
}

/// The byte views of a list of byte vectors.
pub open spec fn byte_views(v: Seq<Vec<u8>>) -> Seq<Seq<u8>> {
    v.map_values(|x: Vec<u8>| x@)
}

/// `r` with `acc` put before its strings.
pub open spec fn prepend_items(acc: Seq<Seq<u8>>, r: Option<(Seq<Seq<u8>>, int)>) -> Option<(Seq<Seq<u8>>, int)> {
    match r {
        Some((s, e)) => Some((acc + s, e)),
        None => None,
    }
}

/// The strings of the array whose items start at `j` (see `array_rest`).
fn array_rest_at(l: &[u8], j: usize) -> (r: Option<(Vec<Vec<u8>>, usize)>)
    requires
        j <= l@.len(),
    ensures
        match array_rest(l@, j as int) {
            Some((s, e)) => r matches Some((v, e2)) && byte_views(v@) == s && e2 == e,
            None => r is None,
        },
        r matches Some((_, e)) ==> e <= l@.len(),
{
    let mut acc: Vec<Vec<u8>> = Vec::new();
    let mut p = j;
    assert(prepend_items(byte_views(acc@), array_rest(l@, j as int)) =~= array_rest(l@, j as int))
        by {
        match array_rest(l@, j as int) {
            Some((s, e)) => assert(byte_views(acc@) + s =~= s),
            None => {},
        }
    }
    loop
        invariant
            j <= p <= l@.len(),
            array_rest(l@, j as int) == prepend_items(byte_views(acc@), array_rest(l@, p as int)),
        decreases l@.len() - p,
    {
        let ghost old_acc = byte_views(acc@);
        let k = skip_space_at(l, p);
        if k < l.len() && l[k] == 0x5D {
            assert(old_acc + Seq::<Seq<u8>>::empty() =~= old_acc);
            return Some((acc, k + 1));
        } else if k < l.len() && l[k] == 0x22 {
            match string_body_at(l, k + 1) {
                None => {
                    return None;
                },
                Some((s, e)) => {
                    proof {
                        lemma_string_body(l@, k + 1);
                    }
                    let ghost sv = s@;
                    let m = skip_space_at(l, e);
                    if m < l.len() && l[m] == 0x5D {
                        acc.push(s);
                        assert(byte_views(acc@) =~= old_acc + seq![sv]);
                        return Some((acc, m + 1));
                    } else if m < l.len() && l[m] == 0x2C {
                        acc.push(s);
                        proof {
                            assert(byte_views(acc@) =~= old_acc.push(sv));
                            match array_rest(l@, m + 1) {
                                Some((rest, f)) => assert(old_acc + (seq![sv] + rest) =~= byte_views(
                                    acc@,
                                ) + rest),
                                None => {},
                            }
                        }
                        p = m + 1;
                    } else {
                        return None;
                    }
                },
            }
        } else {
            return None;
        }
    }
}

fn slice_eq(a: &[u8], b: &[u8]) -> (r: bool)
    ensures
        r == (a@ == b@),
{
    if a.len() != b.len() {
        return false;
    }
    let mut i: usize = 0;
    while i < a.len()
        invariant
            a@.len() == b@.len(),
            i <= a@.len(),
            forall|t: int| 0 <= t < i ==> a@[t] == b@[t],
        decreases a@.len() - i,
    {
        if a[i] != b[i] {
            return false;
        }
        i += 1;
    }
    assert(a@ =~= b@);
    true
}

fn rest_is_comment_at(l: &[u8], i: usize) -> (r: bool)
    requires
        i <= l@.len(),
    ensures
        r == rest_is_comment(l@, i as int),
{
    let k = skip_blank_at(l, i);
    k >= l.len() || l[k] == 0x23 || l[k] == 0x0A
}

/// What one line says, its strings as byte vectors.
enum LineValue {
    Ignored,
    Table,
    TestText(Vec<u8>),
    Fonts(Vec<Vec<u8>>),
    Invalid,
}

spec fn line_value_matches(v: LineValue, c: ConfigLine) -> bool {
    match c {
        ConfigLine::Ignored => v is Ignored,
        ConfigLine::Table => v is Table,
        ConfigLine::TestText(s) => v matches LineValue::TestText(t) && t@ == s,
        ConfigLine::Fonts(f) => v matches LineValue::Fonts(g) && byte_views(g@) == f,
        ConfigLine::Invalid => v is Invalid,
    }
}

/// What the line that starts at `s` says, and where its value ends (see
/// `classify_at`).
fn classify_at_exec(b: &[u8], s: usize) -> (r: (LineValue, usize))
    requires
        s <= b@.len(),
    ensures
        line_value_matches(r.0, classify_at(b@, s as int).0),
        r.1 == classify_at(b@, s as int).1,
        s <= r.1 <= b@.len(),
{
    proof {
        lemma_classify_at(b@, s as int);
    }
    let i = skip_blank_at(b, s);
    let eol = line_end_at(b, s);
    if i >= b.len() || b[i] == 0x23 || b[i] == 0x0A {
        return (LineValue::Ignored, eol);
    }
    if b[i] == 0x5B {
        return (LineValue::Table, eol);
    }
    let k = key_end_at(b, i);
    let key = slice_subrange(b, i, k);
    let e = skip_blank_at(b, k);
    if !(e < b.len() && b[e] == 0x3D) {
        return (LineValue::Ignored, eol);
    }
    let v = skip_blank_at(b, e + 1);
    let test_key: Vec<u8> = vec![0x74, 0x65, 0x73, 0x74, 0x5F, 0x74, 0x65, 0x78, 0x74];
    let fonts_key_bytes: Vec<u8> = vec![0x66, 0x6F, 0x6E, 0x74, 0x73];
    assert(test_key@ =~= test_text_key());
    assert(fonts_key_bytes@ =~= fonts_key());
    if slice_eq(key, test_key.as_slice()) {
        if v < b.len() && b[v] == 0x22 {
            match string_body_at(b, v + 1) {
                Some((t, end)) => {
                    if rest_is_comment_at(b, end) {
                        (LineValue::TestText(t), eol)
                    } else {
                        (LineValue::Invalid, eol)
                    }
                },
                None => (LineValue::Invalid, eol),
            }
        } else {
            (LineValue::Invalid, eol)
        }
    } else if slice_eq(key, fonts_key_bytes.as_slice()) {
        if v < b.len() && b[v] == 0x5B {
            match array_rest_at(b, v + 1) {
                Some((items, end)) => {
                    if rest_is_comment_at(b, end) {
                        let next = line_end_at(b, end);
                        (LineValue::Fonts(items), next)
                    } else {
                        (LineValue::Invalid, eol)
                    }
                },
                None => (LineValue::Invalid, eol),
            }
        } else {
            (LineValue::Invalid, eol)
        }
    } else {
        (LineValue::Ignored, eol)
    }
}

/// The settings read so far, as the parser holds them.
spec fn raw_of(in_table: bool, test_text: Option<Vec<u8>>, fonts: Option<Vec<Vec<u8>>>) -> RawConfig {
    RawConfig {
        in_table,
        test_text: match test_text {
            Some(t) => Some(t@),
            None => None,
        },
        fonts: match fonts {
            Some(f) => Some(byte_views(f@)),
            None => None,
        },
    }
}

/// The settings as text, once every string is checked to be UTF-8.
fn decode_settings(test_text: Option<Vec<u8>>, fonts: Option<Vec<Vec<u8>>>) -> (r: Result<Config, ConfigError>)
    ensures
        ({
            let raw = raw_of(false, test_text, fonts);
            if raw_config_utf8(raw) {
                r matches Ok(c) && config_matches(c, raw)
            } else {
                r == Err::<Config, ConfigError>(ConfigError::InvalidUtf8)
            }
        }),
{
    let ghost raw = raw_of(false, test_text, fonts);
    let text = match &test_text {
        Some(t) => match string_from_utf8(t.as_slice()) {
            Some(s) => Some(s),
            None => {
                return Err(ConfigError::InvalidUtf8);
            },
        },
        None => None,
    };
    let names = match &fonts {
        Some(f) => {
            let mut out: Vec<String> = Vec::new();
            let mut i: usize = 0;
            while i < f.len()
                invariant
                    raw == raw_of(false, test_text, fonts),
                    raw.fonts == Some(byte_views(f@)),
                    i <= f@.len(),
                    out@.len() == i,
                    forall|t: int| 0 <= t < i ==> valid_utf8(#[trigger] f@[t]@),
                    forall|t: int| 0 <= t < i ==> (#[trigger] out@[t])@ == decode_utf8(f@[t]@),
                decreases f@.len() - i,
            {
                match string_from_utf8(f[i].as_slice()) {
                    Some(s) => out.push(s),
                    None => {
                        proof {
                            let fs = raw.fonts->0;
                            assert(!valid_utf8(fs[i as int]));
                        }
                        return Err(ConfigError::InvalidUtf8);
                    },
                }
                i += 1;
            }
            proof {
                assert forall|t: int| 0 <= t < byte_views(f@).len() implies valid_utf8(
                    #[trigger] byte_views(f@)[t],
                ) by {
                    assert(byte_views(f@)[t] == f@[t]@);
                }
            }
            Some(out)
        },
        None => None,
    };
    Ok(Config { test_text: text, fonts: names })
}

/// The settings that a `config.toml` file gives (see the module's
/// description), or why it is refused.
pub fn parse_config(bytes: &[u8]) -> (r: Result<Config, ConfigError>)
    ensures
        match raw_config(bytes@) {
            Err(e) => r == Err::<Config, ConfigError>(e),
            Ok(raw) => if raw_config_utf8(raw) {
                r matches Ok(c) && config_matches(c, raw)
            } else {
                r == Err::<Config, ConfigError>(ConfigError::InvalidUtf8)
            },
        },
{
    let mut in_table = false;
    let mut test_text: Option<Vec<u8>> = None;
    let mut fonts: Option<Vec<Vec<u8>>> = None;
    let mut start: usize = if bytes.len() >= 3 && bytes[0] == 0xEF && bytes[1] == 0xBB && bytes[2]
        == 0xBF {
        3
    } else {
        0
    };
    loop
        invariant
            start <= bytes@.len(),
            raw_config(bytes@) == parse_lines(bytes@, start as int, raw_of(in_table, test_text, fonts)),
        decreases bytes@.len() - start,
    {
        let ghost before = raw_of(in_table, test_text, fonts);
        let (value, end) = classify_at_exec(bytes, start);
        if !in_table {
            match value {
                LineValue::Ignored => {},
                LineValue::Table => {
                    in_table = true;
                },
                LineValue::TestText(t) => {
                    if test_text.is_some() {
                        return Err(ConfigError::DuplicateKey);
                    }
                    test_text = Some(t);
                },
                LineValue::Fonts(f) => {
                    if fonts.is_some() {
                        return Err(ConfigError::DuplicateKey);
                    }
                    fonts = Some(f);
                },
                LineValue::Invalid => {
                    return Err(ConfigError::InvalidValue);
                },
            }
        }
        assert(step(before, classify_at(bytes@, start as int).0) == Ok::<
            RawConfig,
            ConfigError,
        >(raw_of(in_table, test_text, fonts)));
        if end >= bytes.len() {
            return decode_settings(test_text, fonts);
        }
        start = end + 1;
    }
}

/// The sample text the settings give, or `PREVIEW_TEXT` where they give
/// none.
pub fn sample_text(config: &Config) -> (r: &str)
    ensures
        r@ == match config.test_text {
            Some(t) => t@,
            None => PREVIEW_TEXT@,
        },
{
    match &config.test_text {
        Some(t) => t.as_str(),
        None => PREVIEW_TEXT,
    }
}

/// The fonts the settings list, or `system_font_names()` where they list
/// none.
pub fn font_list(config: &Config) -> (r: Vec<&str>)
    ensures
        match config.fonts {
            Some(f) => r@.len() == f@.len() && forall|i: int|
                0 <= i < f@.len() ==> (#[trigger] r@[i])@ == f@[i]@,
            None => r@.len() == crate::items::system_font_list().len() && forall|i: int|
                0 <= i < r@.len() ==> (#[trigger] r@[i])@ == crate::items::system_font_list()[i],
        },
{
    match &config.fonts {
        Some(f) => {
            let mut out: Vec<&str> = Vec::new();
            let mut i: usize = 0;
            while i < f.len()
                invariant
                    i <= f@.len(),
                    out@.len() == i,
                    forall|t: int| 0 <= t < i ==> (#[trigger] out@[t])@ == f@[t]@,
                decreases f@.len() - i,
            {
                out.push(f[i].as_str());
                i += 1;
            }
            out
        },
        None => system_font_names(),
    }
}


/// Between the tokens of a line, a space, a tab and a `\r` are passed over
/// alike; between the items of an array, so is a `\n`.
pub proof fn lemma_spaces_and_tabs_are_blank(l: Seq<u8>, i: int)
    requires
        0 <= i < l.len(),
    ensures
        (l[i] == 0x20 || l[i] == 0x09 || l[i] == 0x0D) ==> skip_blank(l, i) == skip_blank(l, i + 1),
        (l[i] == 0x20 || l[i] == 0x09 || l[i] == 0x0D || l[i] == 0x0A) ==> skip_space(l, i)
            == skip_space(l, i + 1),
        !(l[i] == 0x20 || l[i] == 0x09 || l[i] == 0x0D) ==> skip_blank(l, i) == i,
{
}

} // verus!
