//! The `FontLink\SystemLink` table: which fonts link to which fallback
//! fonts, as read from the registry, and the text shown for a link list.

use vstd::prelude::*;
use vstd::string::StringSliceAdditionalSpecFns;
use vstd::utf8::{decode_utf8, encode_utf8, is_char_boundary};

use crate::wide::{
    decode_utf16_lossy, from_wide_string, le_units, push_char, strip_trailing_nul,
    wide_from_le_bytes,
};

verus! {

/// The map that a sequence of insertions builds; a later insertion of a key
/// replaces an earlier one.
pub open spec fn pairs_to_map(p: Seq<(Seq<char>, Seq<char>)>) -> Map<Seq<char>, Seq<char>>
    decreases p.len(),
{
    if p.len() == 0 {
        Map::empty()
    } else {
        pairs_to_map(p.drop_last()).insert(p.last().0, p.last().1)
    }
}

/// The characters that `char::to_uppercase` gives for a character (the
/// Unicode upper-case mapping; most characters have a one-character one).
pub uninterp spec fn uppercase_of(c: char) -> Seq<char>;

/// `char::to_uppercase`, collected: the upper-case form of a character.
#[verifier::external_body]
fn char_to_uppercase(c: char) -> (r: Vec<char>)
    ensures
        r@ == uppercase_of(c),
{
    c.to_uppercase().collect()
}

/// A character as the table compares it: its upper-case form where that is
/// one character, the character itself otherwise (as the registry, which
/// maps each character to one character, leaves `ß` as it is).
pub open spec fn fold_char(c: char) -> char {
    if uppercase_of(c).len() == 1 {
        uppercase_of(c)[0]
    } else {
        c
    }
}

/// A name as the table compares it: registry value names do not tell
/// capital from small letters, so each character is mapped to its
/// upper-case form (see `fold_char`).
pub open spec fn fold_name(s: Seq<char>) -> Seq<char> {
    s.map_values(|c: char| fold_char(c))
}

/// The name with each character mapped by `fold_char`.
pub fn fold_name_string(name: &str) -> (r: String)
    ensures
        r@ == fold_name(name@),
{
    let mut out = String::new();
    for c in it: name.chars()
        invariant
            it.seq() == name@,
            out@ == fold_name(it.seq().take(it.index() as int)),
    {
        let upper = char_to_uppercase(c);
        let folded = if upper.len() == 1 {
            upper[0]
        } else {
            c
        };
        proof {
            assert(folded == fold_char(c));
            assert(fold_name(it.seq().take(it.index() + 1)) =~= fold_name(
                it.seq().take(it.index() as int),
            ).push(fold_char(c)));
        }
        push_char(&mut out, folded);
    }
    assert(name@.take(name@.len() as int) =~= name@);
    out
}

/// Font name to the list of fonts it links to (a `REG_MULTI_SZ` value
/// decoded to text, its strings still separated by NUL characters). Names
/// are compared in upper case (see `fold_name`), as the registry compares
/// value names; the view is keyed by the upper-cased names.
pub struct FontLinkTable {
    entries: Vec<(String, String)>,
}

impl FontLinkTable {
    /// The insertions made so far, in order.
    pub closed spec fn pairs(&self) -> Seq<(Seq<char>, Seq<char>)> {
        Seq::new(self.entries@.len(), |i: int| (self.entries@[i].0@, self.entries@[i].1@))
    }
}

impl View for FontLinkTable {
    type V = Map<Seq<char>, Seq<char>>;

    closed spec fn view(&self) -> Map<Seq<char>, Seq<char>> {
        pairs_to_map(self.pairs())
    }
}

/// Keys that no insertion after position `i` touched map as they did after
/// the first `i` insertions.
proof fn lemma_pairs_to_map_take(p: Seq<(Seq<char>, Seq<char>)>, i: int, k: Seq<char>)
    requires
        0 <= i <= p.len(),
        forall|j: int| i <= j < p.len() ==> (#[trigger] p[j]).0 != k,
    ensures
        pairs_to_map(p).dom().contains(k) == pairs_to_map(p.take(i)).dom().contains(k),
        pairs_to_map(p).dom().contains(k) ==> pairs_to_map(p)[k] == pairs_to_map(p.take(i))[k],
    decreases p.len() - i,
{
    if i == p.len() {
        assert(p.take(i) =~= p);
    } else {
        lemma_pairs_to_map_take(p, i + 1, k);
        assert(p.take(i + 1).drop_last() =~= p.take(i));
        assert(p.take(i + 1).last() == p[i]);
    }
}

impl FontLinkTable {
    /// An empty table.
    pub fn new() -> (r: Self)
        ensures
            r@ == Map::<Seq<char>, Seq<char>>::empty(),
    {
        let r = FontLinkTable { entries: Vec::new() };
        assert(r.pairs() =~= Seq::<(Seq<char>, Seq<char>)>::empty());
        r
    }

    /// Sets the link list of a font, replacing any earlier one for a name
    /// that differs from it only in the case of its letters.
    pub fn insert(&mut self, name: String, links: String)
        ensures
            final(self)@ == old(self)@.insert(fold_name(name@), links@),
    {
        let ghost old_pairs = self.pairs();
        let key = fold_name_string(name.as_str());
        let ghost value = links@;
        self.entries.push((key, links));
        assert(self.pairs().drop_last() =~= old_pairs);
        assert(self.pairs().last() == (fold_name(name@), value));
    }

    /// The position of the insertion that gives the font its current entry.
    fn position(&self, name: &str) -> (r: Option<usize>)
        ensures
            r is None <==> !self@.dom().contains(fold_name(name@)),
            r matches Some(i) ==> i < self.entries@.len() && self@[fold_name(name@)]
                == self.entries@[i as int].1@,
    {
        let key: String = fold_name_string(name);
        let ghost p = self.pairs();
        let mut i: usize = self.entries.len();
        while i > 0
            invariant
                p == self.pairs(),
                i <= self.entries@.len(),
                key@ == fold_name(name@),
                forall|j: int| i <= j < p.len() ==> (#[trigger] p[j]).0 != fold_name(name@),
            decreases i,
        {
            if self.entries[i - 1].0 == key {
                proof {
                    lemma_pairs_to_map_take(p, i as int, fold_name(name@));
                    assert(p.take(i as int).drop_last() =~= p.take(i - 1));
                    assert(p.take(i as int).last() == p[i - 1]);
                }
                return Some(i - 1);
            }
            i -= 1;
        }
        proof {
            lemma_pairs_to_map_take(p, 0, fold_name(name@));
            assert(p.take(0) =~= Seq::<(Seq<char>, Seq<char>)>::empty());
        }
        None
    }

    /// Whether the table has an entry for the font.
    pub fn contains_key(&self, name: &str) -> (r: bool)
        ensures
            r == self@.dom().contains(fold_name(name@)),
    {
        self.position(name).is_some()
    }

    /// The link list of the font, if it has an entry.
    pub fn get(&self, name: &str) -> (r: Option<&String>)
        ensures
            r is Some <==> self@.dom().contains(fold_name(name@)),
            r matches Some(v) ==> v@ == self@[fold_name(name@)],
    {
        match self.position(name) {
            Some(i) => Some(&self.entries[i].1),
            None => None,
        }
    }
}


/// A buffer cut to the length that the reading call reported, as
/// `Vec::truncate` does: a length beyond the buffer leaves it whole.
pub open spec fn truncated<T>(s: Seq<T>, n: usize) -> Seq<T> {
    if n <= s.len() {
        s.take(n as int)
    } else {
        s
    }
}

impl FontLinkTable {
    /// Records one value of the `SystemLink` key: its name becomes the font
    /// name, and a `REG_MULTI_SZ` value's data, read as UTF-16, becomes the
    /// font's link list. A value of any other type is ignored.
    pub fn record_registry_value(
        &mut self,
        value_name: Vec<u16>,
        value_name_len: usize,
        is_multi_sz: bool,
        value_data: Vec<u8>,
        value_data_len: usize,
    )
        ensures
            is_multi_sz ==> final(self)@ == old(self)@.insert(
                fold_name(decode_utf16_lossy(strip_trailing_nul(truncated(value_name@, value_name_len)))),
                decode_utf16_lossy(strip_trailing_nul(le_units(truncated(value_data@, value_data_len)))),
            ),
            !is_multi_sz ==> final(self)@ == old(self)@,
    {
        let mut value_name = value_name;
        value_name.truncate(value_name_len);
        let font_name = from_wide_string(value_name.as_slice());
        if is_multi_sz {
            let mut value_data = value_data;
            value_data.truncate(value_data_len);
            let wide_data = wide_from_le_bytes(value_data.as_slice());
            let links = from_wide_string(wide_data.as_slice());
            self.insert(font_name, links);
        }
    }
}

/// Each NUL character replaced by `" | "`.
pub open spec fn replace_nul(s: Seq<char>) -> Seq<char>
    decreases s.len(),
{
    if s.len() == 0 {
        seq![]
    } else {
        (if s[0] == '\0' { seq![' ', '|', ' '] } else { seq![s[0]] }) + replace_nul(s.drop_first())
    }
}

/// The number of UTF-8 bytes of a link list that is shown before it is cut.
pub const LINK_TEXT_MAX_BYTES: usize = 100;

/// The last character boundary of `bytes` at or before byte `n`.
pub open spec fn last_char_boundary(bytes: Seq<u8>, n: int) -> int
    decreases n,
{
    if n <= 0 {
        0
    } else if is_char_boundary(bytes, n) {
        n
    } else {
        last_char_boundary(bytes, n - 1)
    }
}

/// The text shown for a link list: NULs replaced by `" | "`, and, when that
/// is longer than `LINK_TEXT_MAX_BYTES` UTF-8 bytes, its characters up to
/// the last character boundary at or before that byte, followed by `"..."`.
pub open spec fn link_text(links: Seq<char>) -> Seq<char> {
    let clean = replace_nul(links);
    let bytes = encode_utf8(clean);
    if bytes.len() > LINK_TEXT_MAX_BYTES {
        decode_utf8(bytes.take(last_char_boundary(bytes, LINK_TEXT_MAX_BYTES as int)))
            + seq!['.', '.', '.']
    } else {
        clean
    }
}

/// `last_char_boundary` is a character boundary, at or before `n`.
proof fn lemma_last_char_boundary(bytes: Seq<u8>, n: int)
    requires
        vstd::utf8::valid_utf8(bytes),
        0 <= n <= bytes.len(),
    ensures
        0 <= last_char_boundary(bytes, n) <= n,
        is_char_boundary(bytes, last_char_boundary(bytes, n)),
    decreases n,
{
    if n > 0 && !is_char_boundary(bytes, n) {
        lemma_last_char_boundary(bytes, n - 1);
    }
}

/// The text shown for a font without a link list.
pub open spec fn no_link_text() -> Seq<char> {
    seq!['(', '无', '配', '置', ')']
}

proof fn lemma_replace_nul_push(s: Seq<char>, c: char)
    ensures
        replace_nul(s.push(c)) == replace_nul(s) + (if c == '\0' {
            seq![' ', '|', ' ']
        } else {
            seq![c]
        }),
    decreases s.len(),
{
    if s.len() == 0 {
        assert(s.push(c).drop_first() =~= Seq::<char>::empty());
        assert(replace_nul(Seq::<char>::empty()) =~= Seq::<char>::empty());
    } else {
        assert(s.push(c).drop_first() =~= s.drop_first().push(c));
        lemma_replace_nul_push(s.drop_first(), c);
    }
    assert(replace_nul(s.push(c)) =~= replace_nul(s) + (if c == '\0' {
        seq![' ', '|', ' ']
    } else {
        seq![c]
    }));
}

/// The link list with each NUL replaced by `" | "`.
pub fn replace_nul_separators(links: &str) -> (r: String)
    ensures
        r@ == replace_nul(links@),
{
    let mut out = String::new();
    for c in it: links.chars()
        invariant
            it.seq() == links@,
            out@ == replace_nul(it.seq().take(it.index() as int)),
    {
        proof {
            lemma_replace_nul_push(it.seq().take(it.index() as int), c);
            assert(it.seq().take(it.index() as int).push(c) =~= it.seq().take(it.index() + 1));
        }
        if c == '\0' {
            proof {
                reveal_strlit(" | ");
            }
            out.append(" | ");
        } else {
            push_char(&mut out, c);
        }
    }
    assert(links@.take(links@.len() as int) =~= links@);
    out
}

/// The text shown for a link list (see `link_text`).
pub fn link_text_for(links: &str) -> (r: String)
    ensures
        r@ == link_text(links@),
{
    let clean = replace_nul_separators(links);
    let s = clean.as_str();
    let ghost bytes = encode_utf8(clean@);
    if s.as_bytes().len() > LINK_TEXT_MAX_BYTES {
        let mut cut: usize = LINK_TEXT_MAX_BYTES;
        while cut > 0 && !s.is_char_boundary(cut)
            invariant
                cut <= LINK_TEXT_MAX_BYTES,
                bytes == s.spec_bytes(),
                bytes.len() > LINK_TEXT_MAX_BYTES,
                last_char_boundary(bytes, LINK_TEXT_MAX_BYTES as int) == last_char_boundary(
                    bytes,
                    cut as int,
                ),
            decreases cut,
        {
            cut -= 1;
        }
        proof {
            vstd::utf8::encode_utf8_valid_utf8(clean@);
            assert(last_char_boundary(bytes, cut as int) == cut as int);
            lemma_last_char_boundary(bytes, cut as int);
        }
        let (head, _tail) = s.split_at(cut);
        let mut out = head.to_owned();
        proof {
            vstd::utf8::encode_utf8_decode_utf8(head@);
            assert(head.spec_bytes() =~= bytes.take(cut as int));
        }
        out.append("...");
        proof {
            reveal_strlit("...");
        }
        out
    } else {
        clean
    }
}

/// The text shown for a font without a link list.
pub fn no_link_text_string() -> (r: String)
    ensures
        r@ == no_link_text(),
{
    let r = String::from_str("(无配置)");
    proof {
        reveal_strlit("(无配置)");
    }
    r
}


/// Valid UTF-8 has a character boundary among any four consecutive
/// positions: a character has at most four bytes.
proof fn lemma_boundary_near(bytes: Seq<u8>, n: int) -> (k: int)
    requires
        vstd::utf8::valid_utf8(bytes),
        0 <= n <= bytes.len(),
    ensures
        0 <= k <= n,
        n - 3 <= k,
        is_char_boundary(bytes, k),
    decreases bytes.len(),
{
    if n == 0 {
        0
    } else {
        let l = vstd::utf8::length_of_first_scalar(bytes);
        assert(1 <= l <= 4 && l <= bytes.len());
        if n < l {
            0
        } else {
            let rest = vstd::utf8::pop_first_scalar(bytes);
            assert(rest.len() == bytes.len() - l);
            let k0 = lemma_boundary_near(rest, n - l);
            assert(is_char_boundary(bytes, k0 + l));
            k0 + l
        }
    }
}

/// No character boundary at or before `n` lies after `last_char_boundary`.
proof fn lemma_last_char_boundary_greatest(bytes: Seq<u8>, n: int, k: int)
    requires
        0 <= k <= n,
        is_char_boundary(bytes, k),
    ensures
        k <= last_char_boundary(bytes, n),
    decreases n,
{
    if n > k && !is_char_boundary(bytes, n) {
        lemma_last_char_boundary_greatest(bytes, n - 1, k);
    }
}

/// The last character boundary at or before `n` is at most three bytes
/// before it.
proof fn lemma_boundary_within_four(bytes: Seq<u8>, n: int)
    requires
        vstd::utf8::valid_utf8(bytes),
        0 <= n <= bytes.len(),
    ensures
        n - 3 <= last_char_boundary(bytes, n),
{
    let k = lemma_boundary_near(bytes, n);
    lemma_last_char_boundary_greatest(bytes, n, k);
}

/// The shown text of a link list is the list with NULs replaced when that
/// has at most `LINK_TEXT_MAX_BYTES` UTF-8 bytes; otherwise it is a prefix
/// of it that ends at the last character boundary at or before that byte,
/// then `"..."`.
pub proof fn lemma_link_text_is_prefix(links: Seq<char>)
    ensures
        ({
            let clean = replace_nul(links);
            let bytes = encode_utf8(clean);
            if bytes.len() <= LINK_TEXT_MAX_BYTES {
                link_text(links) == clean
            } else {
                exists|n: int|
                    0 <= n <= clean.len() && encode_utf8(#[trigger] clean.take(n)).len()
                        == last_char_boundary(bytes, LINK_TEXT_MAX_BYTES as int)
                        && link_text(links) == clean.take(n) + seq!['.', '.', '.']
            }
        }),
{
    let clean = replace_nul(links);
    let b = encode_utf8(clean);
    if b.len() > LINK_TEXT_MAX_BYTES {
        vstd::utf8::encode_utf8_valid_utf8(clean);
        vstd::utf8::encode_utf8_decode_utf8(clean);
        lemma_last_char_boundary(b, LINK_TEXT_MAX_BYTES as int);
        let m = last_char_boundary(b, LINK_TEXT_MAX_BYTES as int);
        vstd::utf8::decode_utf8_split(b, m);
        vstd::utf8::valid_utf8_split(b, m);
        let head = decode_utf8(b.subrange(0, m));
        vstd::utf8::decode_utf8_encode_utf8(b.subrange(0, m));
        assert(b.take(m) =~= b.subrange(0, m));
        let n = head.len() as int;
        assert(clean.take(n) =~= head);
        assert(encode_utf8(clean.take(n)).len() == m);
    }
}

/// The text shown for a link list holds at most `LINK_TEXT_MAX_BYTES`
/// UTF-8 bytes of the list, and at least `LINK_TEXT_MAX_BYTES - 3` of them
/// when it is cut (a character has at most four bytes).
pub proof fn lemma_link_text_cut_length(links: Seq<char>)
    ensures
        ({
            let bytes = encode_utf8(replace_nul(links));
            bytes.len() > LINK_TEXT_MAX_BYTES ==> LINK_TEXT_MAX_BYTES - 3 <= last_char_boundary(
                bytes,
                LINK_TEXT_MAX_BYTES as int,
            ) <= LINK_TEXT_MAX_BYTES
        }),
{
    let bytes = encode_utf8(replace_nul(links));
    if bytes.len() > LINK_TEXT_MAX_BYTES {
        vstd::utf8::encode_utf8_valid_utf8(replace_nul(links));
        lemma_last_char_boundary(bytes, LINK_TEXT_MAX_BYTES as int);
        lemma_boundary_within_four(bytes, LINK_TEXT_MAX_BYTES as int);
    }
}

/// A font whose link list was recorded under its name, or under a name that
/// is the same in upper case, is shown as linked, with the shown text of
/// that list.
pub proof fn lemma_recorded_font_is_shown_linked(
    links: Map<Seq<char>, Seq<char>>,
    recorded: Seq<char>,
    name: Seq<char>,
    value: Seq<char>,
    item: crate::items::FontItem,
)
    requires
        fold_name(recorded) == fold_name(name),
        crate::items::item_matches(item, name, links.insert(fold_name(recorded), value)),
    ensures
        item.has_fontlink,
        item.link_text@ == link_text(value),
{
}


/// Reading a font's entry gives back the list last recorded for it, and
/// recording one font leaves every other font's entry as it was.
pub proof fn lemma_table_read_after_write(
    links: Map<Seq<char>, Seq<char>>,
    name: Seq<char>,
    value: Seq<char>,
    other: Seq<char>,
)
    requires
        other != name,
    ensures
        links.insert(name, value).dom().contains(name),
        links.insert(name, value)[name] == value,
        links.insert(name, value).dom().contains(other) == links.dom().contains(other),
        links.dom().contains(other) ==> links.insert(name, value)[other] == links[other],
{
}


/// The buffer sizes the registry values are first read with: name units
/// (its NUL included) and data bytes.
pub const INITIAL_NAME_CAPACITY: u32 = 256;
pub const INITIAL_DATA_CAPACITY: u32 = 8192;

/// The largest buffers a value is read with: a value name has at most
/// 16383 units and its NUL; data beyond 1 MiB is not read.
pub const MAX_NAME_CAPACITY: u32 = 16384;
pub const MAX_DATA_CAPACITY: u32 = 0x10_0000;

/// What reading the value at the current index of the key gave.
#[derive(Clone, Copy, PartialEq, Eq)]
pub enum EnumOutcome {
    /// The value was read.
    Read,
    /// Its name or data did not fit the buffers (`ERROR_MORE_DATA`).
    MoreData,
    /// There are no more values, or the key cannot be read.
    Finished,
}

/// What to do next while reading the values of the `SystemLink` key.
#[derive(Clone, Copy, PartialEq, Eq)]
pub enum EnumAction {
    /// Record the value read, and go on with the next index.
    Record,
    /// Read the same index again with these buffer sizes.
    Retry { name_capacity: u32, data_capacity: u32 },
    /// Leave this value out (it does not fit the largest buffers), and go on
    /// with the next index.
    Skip,
    /// Stop reading.
    Stop,
}

/// Twice the size, but no more than the limit.
pub open spec fn grown(capacity: u32, limit: u32) -> u32 {
    if capacity as int * 2 <= limit as int { (capacity * 2) as u32 } else { limit }
}

/// The next step of reading the key: a value read is recorded, a value too
/// large for the buffers is read again with buffers twice as large (up to
/// the limits), and left out once both are at their limits; the reading
/// stops when there are no more values.
pub fn next_enum_action(outcome: EnumOutcome, name_capacity: u32, data_capacity: u32) -> (r: EnumAction)
    ensures
        outcome == EnumOutcome::Read ==> r == EnumAction::Record,
        outcome == EnumOutcome::Finished ==> r == EnumAction::Stop,
        outcome == EnumOutcome::MoreData ==> if name_capacity < MAX_NAME_CAPACITY
            || data_capacity < MAX_DATA_CAPACITY {
            r == (EnumAction::Retry {
                name_capacity: grown(name_capacity, MAX_NAME_CAPACITY),
                data_capacity: grown(data_capacity, MAX_DATA_CAPACITY),
            })
        } else {
            r == EnumAction::Skip
        },
{
    match outcome {
        EnumOutcome::Read => EnumAction::Record,
        EnumOutcome::Finished => EnumAction::Stop,
        EnumOutcome::MoreData => {
            if name_capacity < MAX_NAME_CAPACITY || data_capacity < MAX_DATA_CAPACITY {
                let name = if name_capacity <= MAX_NAME_CAPACITY / 2 {
                    name_capacity * 2
                } else {
                    MAX_NAME_CAPACITY
                };
                let data = if data_capacity <= MAX_DATA_CAPACITY / 2 {
                    data_capacity * 2
                } else {
                    MAX_DATA_CAPACITY
                };
                EnumAction::Retry { name_capacity: name, data_capacity: data }
            } else {
                EnumAction::Skip
            }
        },
    }
}

/// Reading makes progress: a retry grows a buffer that is below its limit
/// and never shrinks one, so a value is read again only a bounded number of
/// times before it is recorded or left out.
pub proof fn lemma_retry_grows(name_capacity: u32, data_capacity: u32)
    requires
        0 < name_capacity <= MAX_NAME_CAPACITY,
        0 < data_capacity <= MAX_DATA_CAPACITY,
        name_capacity < MAX_NAME_CAPACITY || data_capacity < MAX_DATA_CAPACITY,
    ensures
        name_capacity <= grown(name_capacity, MAX_NAME_CAPACITY) <= MAX_NAME_CAPACITY,
        data_capacity <= grown(data_capacity, MAX_DATA_CAPACITY) <= MAX_DATA_CAPACITY,
        name_capacity < grown(name_capacity, MAX_NAME_CAPACITY) || data_capacity < grown(
            data_capacity,
            MAX_DATA_CAPACITY,
        ),
{
}

} // verus!
