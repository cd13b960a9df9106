//! The typed configuration store.
//!
//! Strings live in slots of fixed width: a value is cut to the width of its
//! slot and filled up with a sentinel, and is read back up to the first
//! sentinel. Floats live as their bit pattern in a 32-bit slot.

use pad::{Alignment, PadStr};
use vstd::prelude::*;
use crate::configuration::slots::{Slot, SlotTable, SlotView};
use crate::string_error::StorageError;
use crate::text::{from_chars, to_chars};

verus! {

/// The sentinel that fills a string slot up to its width.
pub const PAD_CHAR: char = '\u{3}';

/// The key of the name of the network to join.
pub const KEY_SSID: &'static str = "SSID";

/// The key of the passphrase of the network.
pub const KEY_PASSPHRASE: &'static str = "PASS";

/// The key of the address of the collector.
pub const KEY_SERVER_ADDRESS: &'static str = "SRVADDR";

/// The key of the number of the node.
pub const KEY_ID: &'static str = "ID";

/// The key of the name of the node.
pub const KEY_NAME: &'static str = "NAME";

/// The key of the time that the node sleeps between two reports.
pub const KEY_SLEEP: &'static str = "SLEEP";

/// The key of the transmit power of the radio.
pub const KEY_TX_POWER: &'static str = "TX_POWER";

/// The key of the voltage read in soaked soil.
pub const KEY_MOIST_VHIGH: &'static str = "MVHIGH";

/// The key of the voltage read in dry soil.
pub const KEY_MOIST_VLOW: &'static str = "MVLOW";

/// The key of the distance to a full tank.
pub const KEY_WATER_HIGH: &'static str = "WATERHIGH";

/// The key of the distance to an empty tank.
pub const KEY_WATER_LOW: &'static str = "WATERLOW";

/// `s` at the width `width`: cut where it is longer, filled up with `fill`
/// where it is shorter.
pub open spec fn fixed_width(s: Seq<char>, width: nat, fill: char) -> Seq<char> {
    if s.len() >= width {
        s.subrange(0, width as int)
    } else {
        s + Seq::new((width - s.len()) as nat, |i: int| fill)
    }
}

/// The part of `s` before its first sentinel; all of `s` where it has none.
pub open spec fn before_sentinel(s: Seq<char>) -> Seq<char>
    decreases s.len(),
{
    if s.len() == 0 || s[0] == PAD_CHAR {
        Seq::empty()
    } else {
        seq![s[0]] + before_sentinel(s.skip(1))
    }
}

/// Whether each character of `s` is a printable character of ASCII.
pub open spec fn printable_ascii(s: Seq<char>) -> bool {
    forall|i: int| 0 <= i < s.len() ==> 0x20 <= (#[trigger] s[i]) as u32 <= 0x7e
}

/// Where the first sentinel of `s` stands at `k`, or `s` has none and `k` is
/// its length, the part before the sentinel is the first `k` characters.
pub proof fn lemma_before_sentinel(s: Seq<char>, k: int)
    requires
        0 <= k <= s.len(),
        forall|j: int| 0 <= j < k ==> s[j] != PAD_CHAR,
        k == s.len() || s[k] == PAD_CHAR,
    ensures
        before_sentinel(s) == s.subrange(0, k),
    decreases k,
{
    if k == 0 {
        assert(s.subrange(0, 0) == Seq::<char>::empty());
    } else {
        let rest = s.skip(1);
        assert forall|j: int| 0 <= j < k - 1 implies rest[j] != PAD_CHAR by {
            assert(rest[j] == s[j + 1]);
        }
        lemma_before_sentinel(rest, k - 1);
        assert(s.subrange(0, k) == seq![s[0]] + rest.subrange(0, k - 1));
    }
}

/// `PadStr::pad` of the crate `pad`, aligned to the left and cutting: on
/// printable ASCII, where a character is a column and a byte, it cuts `s` to
/// `width` characters or fills it up to `width` with `fill`.
#[verifier::external_body]
fn pad_printable(s: &str, width: usize, fill: char) -> (out: String)
    requires
        printable_ascii(s@),
    ensures
        out@ == fixed_width(s@, width as nat, fill),
{
    s.pad(width, fill, Alignment::Left, true)
}

/// Whether each character of `chars` is a printable character of ASCII.
fn is_printable_ascii(chars: &Vec<char>) -> (yes: bool)
    ensures
        yes == printable_ascii(chars@),
{
    let mut i: usize = 0;
    while i < chars.len()
        invariant
            i <= chars.len(),
            forall|j: int| 0 <= j < i ==> 0x20 <= (#[trigger] chars@[j]) as u32 <= 0x7e,
        decreases chars.len() - i,
    {
        let v: u32 = chars[i] as u32;
        if v < 0x20 || v > 0x7e {
            return false;
        }
        i = i + 1;
    }
    true
}

/// `s` at the width `max` of its slot, filled up with the sentinel.
pub fn trunc_pad_string(s: &str, max: usize) -> (out: String)
    ensures
        out@ == fixed_width(s@, max as nat, PAD_CHAR),
{
    let chars = to_chars(s);
    if is_printable_ascii(&chars) {
        return pad_printable(s, max, PAD_CHAR);
    }
    // `pad` counts display columns and cuts at a byte offset; both differ
    // from a count of characters outside printable ASCII.
    let mut out: Vec<char> = Vec::new();
    let mut i: usize = 0;
    while i < chars.len() && i < max
        invariant
            i <= chars.len(),
            i <= max,
            out@ == chars@.subrange(0, i as int),
        decreases chars.len() - i,
    {
        out.push(chars[i]);
        i = i + 1;
        assert(out@ == chars@.subrange(0, i as int));
    }
    if chars.len() >= max {
        return from_chars(&out);
    }
    assert(chars@.subrange(0, chars.len() as int) == chars@);
    let ghost short = chars@.len();
    while i < max
        invariant
            short <= i <= max,
            short == chars@.len(),
            out@ == chars@ + Seq::new((i - short) as nat, |k: int| PAD_CHAR),
        decreases max - i,
    {
        out.push(PAD_CHAR);
        i = i + 1;
        assert(out@ == chars@ + Seq::new((i - short) as nat, |k: int| PAD_CHAR));
    }
    from_chars(&out)
}

/// What was stored in a slot, read back: the part before the first
/// sentinel.
pub fn strip_padding(stored: &str) -> (out: String)
    ensures
        out@ == before_sentinel(stored@),
{
    let chars = to_chars(stored);
    let mut out: Vec<char> = Vec::new();
    let mut i: usize = 0;
    while i < chars.len() && chars[i] != PAD_CHAR
        invariant
            i <= chars.len(),
            out@ == chars@.subrange(0, i as int),
            forall|j: int| 0 <= j < i ==> chars@[j] != PAD_CHAR,
        decreases chars.len() - i,
    {
        out.push(chars[i]);
        i = i + 1;
        assert(out@ == chars@.subrange(0, i as int));
    }
    proof {
        lemma_before_sentinel(chars@, i as int);
    }
    from_chars(&out)
}

/// The part before the first sentinel is a prefix that holds no sentinel,
/// and ends at a sentinel or at the end.
pub proof fn lemma_before_sentinel_is_prefix(s: Seq<char>)
    ensures
        before_sentinel(s).len() <= s.len(),
        before_sentinel(s) == s.subrange(0, before_sentinel(s).len() as int),
        !before_sentinel(s).contains(PAD_CHAR),
        before_sentinel(s).len() == s.len() || s[before_sentinel(s).len() as int] == PAD_CHAR,
    decreases s.len(),
{
    if s.len() == 0 || s[0] == PAD_CHAR {
        assert(s.subrange(0, 0) == Seq::<char>::empty());
    } else {
        let rest = s.skip(1);
        lemma_before_sentinel_is_prefix(rest);
        let head = before_sentinel(rest);
        let all = before_sentinel(s);
        assert(all == seq![s[0]] + head);
        assert(all == s.subrange(0, all.len() as int));
        assert forall|j: int| 0 <= j < all.len() implies all[j] != PAD_CHAR by {
            if j > 0 {
                assert(all[j] == head[j - 1]);
                assert(head.contains(head[j - 1]));
            }
        }
        if head.len() != rest.len() {
            assert(rest[head.len() as int] == s[all.len() as int]);
        }
    }
}

/// A string that holds no sentinel and fits its slot is read back as it was
/// written.
pub proof fn lemma_string_round_trip(s: Seq<char>, width: nat)
    requires
        !s.contains(PAD_CHAR),
        s.len() <= width,
    ensures
        before_sentinel(fixed_width(s, width, PAD_CHAR)) == s,
{
    let stored = fixed_width(s, width, PAD_CHAR);
    assert forall|j: int| 0 <= j < s.len() implies stored[j] != PAD_CHAR by {
        assert(stored[j] == s[j]);
        assert(s.contains(s[j]));
    }
    lemma_before_sentinel(stored, s.len() as int);
    assert(stored.subrange(0, s.len() as int) == s);
}

/// Whatever string is written to a slot, what is read back is a prefix of
/// it that is no longer than the slot is wide.
pub proof fn lemma_string_read_back_is_prefix(s: Seq<char>, width: nat)
    ensures
        before_sentinel(fixed_width(s, width, PAD_CHAR)).len() <= width,
        before_sentinel(fixed_width(s, width, PAD_CHAR)).is_prefix_of(s),
        !s.contains(PAD_CHAR) ==> before_sentinel(fixed_width(s, width, PAD_CHAR)) == (if s.len()
            <= width {
            s
        } else {
            s.subrange(0, width as int)
        }),
{
    let stored = fixed_width(s, width, PAD_CHAR);
    let back = before_sentinel(stored);
    lemma_before_sentinel_is_prefix(stored);
    assert(stored.len() == width);
    if back.len() > s.len() {
        assert(stored[s.len() as int] == PAD_CHAR);
        assert(back[s.len() as int] == stored[s.len() as int]);
        assert(back.contains(back[s.len() as int]));
    }
    assert(back == s.subrange(0, back.len() as int)) by {
        assert forall|j: int| 0 <= j < back.len() implies back[j] == s[j] by {
            assert(back[j] == stored[j]);
        }
    }
    if !s.contains(PAD_CHAR) {
        if s.len() <= width {
            lemma_string_round_trip(s, width);
        } else {
            assert forall|j: int| 0 <= j < width implies stored[j] != PAD_CHAR by {
                assert(stored[j] == s[j]);
                assert(s.contains(s[j]));
            }
            lemma_before_sentinel(stored, width as int);
            assert(stored.subrange(0, width as int) == stored);
        }
    }
}

/// Whether `s` holds a NUL character, which the storage takes neither in a
/// key nor in a string.
pub open spec fn has_nul(s: Seq<char>) -> bool {
    s.contains('\0')
}

/// Whether `s` holds a NUL character.
pub fn contains_nul(s: &str) -> (yes: bool)
    ensures
        yes == has_nul(s@),
{
    let chars = to_chars(s);
    let mut i: usize = 0;
    while i < chars.len()
        invariant
            i <= chars.len(),
            chars@ == s@,
            forall|j: int| 0 <= j < i ==> chars@[j] != '\0',
        decreases chars.len() - i,
    {
        if chars[i] == '\0' {
            assert(chars@.contains(chars@[i as int]));
            return true;
        }
        i = i + 1;
    }
    false
}

/// The string read under `key` from the values `m`: what its slot holds up
/// to the first sentinel; `default` where `key` holds no string.
pub open spec fn stored_string(
    m: Map<Seq<char>, SlotView>,
    key: Seq<char>,
    default: Seq<char>,
) -> Seq<char> {
    if m.contains_key(key) && m[key] is Text {
        before_sentinel(m[key]->Text_0)
    } else {
        default
    }
}

/// The number read under `key` from the values `m`; `default` where `key`
/// holds no 8-bit number.
pub open spec fn stored_u8(m: Map<Seq<char>, SlotView>, key: Seq<char>, default: u8) -> u8 {
    if m.contains_key(key) && m[key] is U8 {
        m[key]->U8_0
    } else {
        default
    }
}

/// The number read under `key` from the values `m`; `default` where `key`
/// holds no 32-bit number.
pub open spec fn stored_u32(m: Map<Seq<char>, SlotView>, key: Seq<char>, default: u32) -> u32 {
    if m.contains_key(key) && m[key] is U32 {
        m[key]->U32_0
    } else {
        default
    }
}

/// The number read under `key` from the values `m`; `default` where `key`
/// holds no 64-bit number.
pub open spec fn stored_u64(m: Map<Seq<char>, SlotView>, key: Seq<char>, default: u64) -> u64 {
    if m.contains_key(key) && m[key] is U64 {
        m[key]->U64_0
    } else {
        default
    }
}

/// The values `m` after `slot` was stored under `key`. A key with a NUL
/// character is refused and leaves `m` as it was. A string with a NUL
/// character is refused after the key was erased.
pub open spec fn after_store(m: Map<Seq<char>, SlotView>, key: Seq<char>, slot: SlotView) -> Map<
    Seq<char>,
    SlotView,
> {
    if has_nul(key) {
        m
    } else if slot is Text && has_nul(slot->Text_0) {
        m.remove(key)
    } else {
        m.insert(key, slot)
    }
}

/// Whether storing `slot` under `key` succeeds, and how it fails.
pub open spec fn store_outcome(key: Seq<char>, slot: SlotView) -> Result<(), StorageError> {
    if has_nul(key) {
        Err(StorageError::EraseKey)
    } else if slot is Text && has_nul(slot->Text_0) {
        Err(StorageError::StoreString)
    } else {
        Ok(())
    }
}

/// The byte `raw` read as a signed number in two's complement.
pub open spec fn signed_byte(raw: u8) -> int {
    if raw < 128 {
        raw as int
    } else {
        raw - 256
    }
}

/// One step that brings the flash up to date with the store.
#[derive(Debug)]
pub enum StorageOp {
    /// Erase the key, whatever type it holds.
    Erase(String),
    /// Write the value under the key.
    Write(String, Slot),
}

/// A [`StorageOp`] as a mathematical value.
pub enum StorageOpView {
    Erase(Seq<char>),
    Write(Seq<char>, SlotView),
}

impl View for StorageOp {
    type V = StorageOpView;

    open spec fn view(&self) -> StorageOpView {
        match self {
            StorageOp::Erase(k) => StorageOpView::Erase(k@),
            StorageOp::Write(k, v) => StorageOpView::Write(k@, v@),
        }
    }
}

/// The steps that storing `slot` under `key` asks of the flash.
pub open spec fn store_steps(key: Seq<char>, slot: SlotView) -> Seq<StorageOpView> {
    if has_nul(key) {
        Seq::empty()
    } else if slot is Text && has_nul(slot->Text_0) {
        seq![StorageOpView::Erase(key)]
    } else {
        seq![StorageOpView::Erase(key), StorageOpView::Write(key, slot)]
    }
}

/// The storage that a configuration is made on: what the flash holds, and
/// whether a configuration has it in hand. There is one per device.
pub struct NvsPartition {
    taken: bool,
    image: SlotTable,
}

impl NvsPartition {
    /// Whether a configuration has the storage in hand.
    pub closed spec fn taken(&self) -> bool {
        self.taken
    }

    /// What the storage holds while no configuration has it in hand.
    pub closed spec fn view(&self) -> Map<Seq<char>, SlotView> {
        self.image@
    }

    /// A storage that holds nothing and is in nobody's hand.
    pub fn new() -> (partition: NvsPartition)
        ensures
            !partition.taken(),
            partition@ == Map::<Seq<char>, SlotView>::empty(),
    {
        NvsPartition { taken: false, image: SlotTable::new() }
    }

    /// Whether a configuration has the storage in hand.
    pub fn is_taken(&self) -> (taken: bool)
        ensures
            taken == self.taken(),
    {
        self.taken
    }

    /// Notes that the flash holds `slot` under `key`.
    pub fn load(&mut self, key: &str, slot: Slot)
        ensures
            final(self).taken() == old(self).taken(),
            final(self)@ == old(self)@.insert(key@, slot@),
    {
        self.image.put(key, slot);
    }
}

/// The typed configuration store. It holds the storage from [`new`] to
/// [`release`], and keeps a journal of what it wrote since the journal was
/// last taken.
///
/// [`new`]: NvsConfiguration::new
/// [`release`]: NvsConfiguration::release
pub struct NvsConfiguration {
    nvs: SlotTable,
    journal: Vec<StorageOp>,
}

/// The steps `ops`, as mathematical values.
pub open spec fn steps_of(ops: Seq<StorageOp>) -> Seq<StorageOpView> {
    ops.map_values(|op: StorageOp| op@)
}

impl NvsConfiguration {
    /// The stored values, each under its key.
    pub closed spec fn view(&self) -> Map<Seq<char>, SlotView> {
        self.nvs@
    }

    /// The steps written since the journal was last taken.
    pub closed spec fn journal(&self) -> Seq<StorageOpView> {
        steps_of(self.journal@)
    }

    /// Takes the storage in hand. Only one configuration can have it: while
    /// one does, a second call fails and changes nothing.
    pub fn new(partition: &mut NvsPartition) -> (made: Result<NvsConfiguration, StorageError>)
        ensures
            match made {
                Ok(config) => {
                    &&& !old(partition).taken()
                    &&& final(partition).taken()
                    &&& config@ == old(partition)@
                    &&& config.journal() == Seq::<StorageOpView>::empty()
                },
                Err(e) => {
                    &&& old(partition).taken()
                    &&& e == StorageError::AlreadyTaken
                    &&& final(partition).taken()
                    &&& final(partition)@ == old(partition)@
                },
            },
    {
        if partition.taken {
            return Err(StorageError::AlreadyTaken);
        }
        partition.taken = true;
        let mut nvs = SlotTable::new();
        core::mem::swap(&mut partition.image, &mut nvs);
        let config = NvsConfiguration { nvs, journal: Vec::new() };
        assert(config.journal() =~= Seq::<StorageOpView>::empty());
        Ok(config)
    }

    /// Hands the storage back, with the values that the store holds. A new
    /// configuration can then be made on it.
    pub fn release(self, partition: &mut NvsPartition)
        ensures
            !final(partition).taken(),
            final(partition)@ == self@,
    {
        let mut nvs = self.nvs;
        core::mem::swap(&mut partition.image, &mut nvs);
        partition.taken = false;
    }

    /// The steps written since the journal was last taken; the journal is
    /// empty afterwards.
    pub fn take_journal(&mut self) -> (steps: Vec<StorageOp>)
        ensures
            steps_of(steps@) == old(self).journal(),
            final(self).journal() == Seq::<StorageOpView>::empty(),
            final(self)@ == old(self)@,
    {
        let mut steps: Vec<StorageOp> = Vec::new();
        core::mem::swap(&mut self.journal, &mut steps);
        assert(self.journal() =~= Seq::<StorageOpView>::empty());
        steps
    }

    /// Stores `slot` under `key`, erasing first what the key held.
    fn store(&mut self, key: &str, slot: Slot) -> (done: Result<(), StorageError>)
        ensures
            done == store_outcome(key@, slot@),
            final(self)@ == after_store(old(self)@, key@, slot@),
            final(self).journal() == old(self).journal() + store_steps(key@, slot@),
    {
        if contains_nul(key) {
            assert(self.journal() + Seq::<StorageOpView>::empty() =~= self.journal());
            return Err(StorageError::EraseKey);
        }
        let ghost before = self.journal@;
        self.nvs.remove(key);
        self.journal.push(StorageOp::Erase(key.to_owned()));
        assert(steps_of(self.journal@) =~= steps_of(before) + seq![StorageOpView::Erase(key@)]);
        let refused = match &slot {
            Slot::Text(s) => contains_nul(s.as_str()),
            _ => false,
        };
        if refused {
            return Err(StorageError::StoreString);
        }
        let ghost middle = self.journal@;
        self.journal.push(StorageOp::Write(key.to_owned(), slot.duplicate()));
        assert(steps_of(self.journal@) =~= steps_of(middle) + seq![
            StorageOpView::Write(key@, slot@),
        ]);
        assert(steps_of(self.journal@) =~= steps_of(before) + store_steps(key@, slot@));
        self.nvs.put(key, slot);
        assert(old(self)@.remove(key@).insert(key@, slot@) =~= old(self)@.insert(key@, slot@));
        Ok(())
    }

    /// Stores `value` under `key` in a slot `max_size` characters wide.
    pub fn store_string(&mut self, key: &str, value: &str, max_size: usize) -> (done: Result<
        (),
        StorageError,
    >)
        ensures
            done == store_outcome(
                key@,
                SlotView::Text(fixed_width(value@, max_size as nat, PAD_CHAR)),
            ),
            final(self)@ == after_store(
                old(self)@,
                key@,
                SlotView::Text(fixed_width(value@, max_size as nat, PAD_CHAR)),
            ),
            final(self).journal() == old(self).journal() + store_steps(
                key@,
                SlotView::Text(fixed_width(value@, max_size as nat, PAD_CHAR)),
            ),
    {
        if contains_nul(key) {
            // Nothing is cut or filled for a key that cannot be written.
            assert(self.journal() + Seq::<StorageOpView>::empty() =~= self.journal());
            return Err(StorageError::EraseKey);
        }
        let padded = trunc_pad_string(value, max_size);
        self.store(key, Slot::Text(padded))
    }

    /// The string stored under `key`; `default` where there is none.
    pub fn read_string(&self, key: &str, default: &str) -> (value: String)
        ensures
            value@ == stored_string(self@, key@, default@),
    {
        match self.nvs.get(key) {
            Some(Slot::Text(raw)) => strip_padding(raw.as_str()),
            _ => default.to_owned(),
        }
    }

    /// Stores the float with the bit pattern `bits` under `key`.
    pub fn store_float(&mut self, key: &str, bits: u32) -> (done: Result<(), StorageError>)
        ensures
            done == store_outcome(key@, SlotView::U32(bits)),
            final(self)@ == after_store(old(self)@, key@, SlotView::U32(bits)),
            final(self).journal() == old(self).journal() + store_steps(key@, SlotView::U32(bits)),
    {
        self.store(key, Slot::U32(bits))
    }

    /// The bit pattern of the float stored under `key`; `default` where
    /// there is none.
    pub fn read_float(&self, key: &str, default: u32) -> (bits: u32)
        ensures
            bits == stored_u32(self@, key@, default),
    {
        self.read_u32(key, default)
    }

    /// Stores `value` under `key`.
    pub fn store_u8(&mut self, key: &str, value: u8) -> (done: Result<(), StorageError>)
        ensures
            done == store_outcome(key@, SlotView::U8(value)),
            final(self)@ == after_store(old(self)@, key@, SlotView::U8(value)),
            final(self).journal() == old(self).journal() + store_steps(key@, SlotView::U8(value)),
    {
        self.store(key, Slot::U8(value))
    }

    /// The number stored under `key`; `default` where there is none.
    pub fn read_u8(&self, key: &str, default: u8) -> (value: u8)
        ensures
            value == stored_u8(self@, key@, default),
    {
        match self.nvs.get(key) {
            Some(Slot::U8(v)) => *v,
            _ => default,
        }
    }

    /// Stores `value` under `key`.
    pub fn store_u32(&mut self, key: &str, value: u32) -> (done: Result<(), StorageError>)
        ensures
            done == store_outcome(key@, SlotView::U32(value)),
            final(self)@ == after_store(old(self)@, key@, SlotView::U32(value)),
            final(self).journal() == old(self).journal() + store_steps(
                key@,
                SlotView::U32(value),
            ),
    {
        self.store(key, Slot::U32(value))
    }

    /// The number stored under `key`; `default` where there is none.
    pub fn read_u32(&self, key: &str, default: u32) -> (value: u32)
        ensures
            value == stored_u32(self@, key@, default),
    {
        match self.nvs.get(key) {
            Some(Slot::U32(v)) => *v,
            _ => default,
        }
    }

    /// Stores `value` under `key`.
    pub fn store_u64(&mut self, key: &str, value: u64) -> (done: Result<(), StorageError>)
        ensures
            done == store_outcome(key@, SlotView::U64(value)),
            final(self)@ == after_store(old(self)@, key@, SlotView::U64(value)),
            final(self).journal() == old(self).journal() + store_steps(
                key@,
                SlotView::U64(value),
            ),
    {
        self.store(key, Slot::U64(value))
    }

    /// The number stored under `key`; `default` where there is none.
    pub fn read_u64(&self, key: &str, default: u64) -> (value: u64)
        ensures
            value == stored_u64(self@, key@, default),
    {
        match self.nvs.get(key) {
            Some(Slot::U64(v)) => *v,
            _ => default,
        }
    }

    /// The name of the network to join; empty by default.
    pub fn get_ssid(&self) -> (value: String)
        ensures
            value@ == stored_string(self@, KEY_SSID@, ""@),
    {
        self.read_string(KEY_SSID, "")
    }

    /// Stores the name of the network to join, in a slot of 32 characters.
    pub fn set_ssid(&mut self, ssid: &str) -> (done: Result<(), StorageError>)
        ensures
            done == store_outcome(KEY_SSID@, SlotView::Text(fixed_width(ssid@, 32, PAD_CHAR))),
            final(self)@ == after_store(
                old(self)@,
                KEY_SSID@,
                SlotView::Text(fixed_width(ssid@, 32, PAD_CHAR)),
            ),
            final(self).journal() == old(self).journal() + store_steps(
                KEY_SSID@,
                SlotView::Text(fixed_width(ssid@, 32, PAD_CHAR)),
            ),
    {
        self.store_string(KEY_SSID, ssid, 32)
    }

    /// The passphrase of the network; empty by default.
    pub fn get_passphrase(&self) -> (value: String)
        ensures
            value@ == stored_string(self@, KEY_PASSPHRASE@, ""@),
    {
        self.read_string(KEY_PASSPHRASE, "")
    }

    /// Stores the passphrase of the network, in a slot of 63 characters.
    pub fn set_passphrase(&mut self, passphrase: &str) -> (done: Result<(), StorageError>)
        ensures
            done == store_outcome(
                KEY_PASSPHRASE@,
                SlotView::Text(fixed_width(passphrase@, 63, PAD_CHAR)),
            ),
            final(self)@ == after_store(
                old(self)@,
                KEY_PASSPHRASE@,
                SlotView::Text(fixed_width(passphrase@, 63, PAD_CHAR)),
            ),
            final(self).journal() == old(self).journal() + store_steps(
                KEY_PASSPHRASE@,
                SlotView::Text(fixed_width(passphrase@, 63, PAD_CHAR)),
            ),
    {
        self.store_string(KEY_PASSPHRASE, passphrase, 63)
    }

    /// The name of the node; empty by default.
    pub fn get_name(&self) -> (value: String)
        ensures
            value@ == stored_string(self@, KEY_NAME@, ""@),
    {
        self.read_string(KEY_NAME, "")
    }

    /// Stores the name of the node, in a slot of 32 characters.
    pub fn set_name(&mut self, name: &str) -> (done: Result<(), StorageError>)
        ensures
            done == store_outcome(KEY_NAME@, SlotView::Text(fixed_width(name@, 32, PAD_CHAR))),
            final(self)@ == after_store(
                old(self)@,
                KEY_NAME@,
                SlotView::Text(fixed_width(name@, 32, PAD_CHAR)),
            ),
            final(self).journal() == old(self).journal() + store_steps(
                KEY_NAME@,
                SlotView::Text(fixed_width(name@, 32, PAD_CHAR)),
            ),
    {
        self.store_string(KEY_NAME, name, 32)
    }

    /// The number of the node; 0 by default.
    pub fn get_id(&self) -> (value: u32)
        ensures
            value == stored_u32(self@, KEY_ID@, 0),
    {
        self.read_u32(KEY_ID, 0)
    }

    /// Stores the number of the node.
    pub fn set_id(&mut self, value: u32) -> (done: Result<(), StorageError>)
        ensures
            done == store_outcome(KEY_ID@, SlotView::U32(value)),
            final(self)@ == after_store(old(self)@, KEY_ID@, SlotView::U32(value)),
            final(self).journal() == old(self).journal() + store_steps(
                KEY_ID@,
                SlotView::U32(value),
            ),
    {
        self.store_u32(KEY_ID, value)
    }

    /// The address of the collector; that of the node's own access point by
    /// default.
    pub fn get_server_address(&self) -> (value: String)
        ensures
            value@ == stored_string(self@, KEY_SERVER_ADDRESS@, "192.168.70.1"@),
    {
        self.read_string(KEY_SERVER_ADDRESS, "192.168.70.1")
    }

    /// How long the node sleeps between two reports, in microseconds; one
    /// hour by default.
    pub fn get_deep_sleep_duration(&self) -> (value: u64)
        ensures
            value == stored_u64(self@, KEY_SLEEP@, 3600_000_000),
    {
        self.read_u64(KEY_SLEEP, 3600_000_000)
    }

    /// Stores how long the node sleeps between two reports, in
    /// microseconds.
    pub fn set_deep_sleep_duration(&mut self, value: u64) -> (done: Result<(), StorageError>)
        ensures
            done == store_outcome(KEY_SLEEP@, SlotView::U64(value)),
            final(self)@ == after_store(old(self)@, KEY_SLEEP@, SlotView::U64(value)),
            final(self).journal() == old(self).journal() + store_steps(
                KEY_SLEEP@,
                SlotView::U64(value),
            ),
    {
        self.store_u64(KEY_SLEEP, value)
    }

    /// The transmit power of the radio in quarters of a dBm, 80 by default:
    /// the stored byte read as a signed number.
    pub fn get_tx_power(&self) -> (value: i8)
        ensures
            value as int == signed_byte(stored_u8(self@, KEY_TX_POWER@, 80)),
    {
        let raw = self.read_u8(KEY_TX_POWER, 80);
        if raw < 128 {
            raw as i8
        } else {
            (raw as i16 - 256) as i8
        }
    }

    /// The bit pattern of the voltage read in soaked soil; that of 0.0 by
    /// default.
    pub fn get_vhigh_moisture(&self) -> (bits: u32)
        ensures
            bits == stored_u32(self@, KEY_MOIST_VHIGH@, 0),
    {
        self.read_float(KEY_MOIST_VHIGH, 0)
    }

    /// Stores the bit pattern of the voltage read in soaked soil.
    pub fn set_vhigh_moisture(&mut self, bits: u32) -> (done: Result<(), StorageError>)
        ensures
            done == store_outcome(KEY_MOIST_VHIGH@, SlotView::U32(bits)),
            final(self)@ == after_store(old(self)@, KEY_MOIST_VHIGH@, SlotView::U32(bits)),
            final(self).journal() == old(self).journal() + store_steps(
                KEY_MOIST_VHIGH@,
                SlotView::U32(bits),
            ),
    {
        self.store_float(KEY_MOIST_VHIGH, bits)
    }

    /// The bit pattern of the voltage read in dry soil; that of 0.0 by
    /// default.
    pub fn get_vlow_moisture(&self) -> (bits: u32)
        ensures
            bits == stored_u32(self@, KEY_MOIST_VLOW@, 0),
    {
        self.read_float(KEY_MOIST_VLOW, 0)
    }

    /// Stores the bit pattern of the voltage read in dry soil.
    pub fn set_vlow_moisture(&mut self, bits: u32) -> (done: Result<(), StorageError>)
        ensures
            done == store_outcome(KEY_MOIST_VLOW@, SlotView::U32(bits)),
            final(self)@ == after_store(old(self)@, KEY_MOIST_VLOW@, SlotView::U32(bits)),
            final(self).journal() == old(self).journal() + store_steps(
                KEY_MOIST_VLOW@,
                SlotView::U32(bits),
            ),
    {
        self.store_float(KEY_MOIST_VLOW, bits)
    }

    /// The bit pattern of the distance to a full tank; that of 0.0 by
    /// default.
    pub fn get_high_water_level(&self) -> (bits: u32)
        ensures
            bits == stored_u32(self@, KEY_WATER_HIGH@, 0),
    {
        self.read_float(KEY_WATER_HIGH, 0)
    }

    /// The bit pattern of the distance to an empty tank; that of 0.0 by
    /// default.
    pub fn get_low_water_level(&self) -> (bits: u32)
        ensures
            bits == stored_u32(self@, KEY_WATER_LOW@, 0),
    {
        self.read_float(KEY_WATER_LOW, 0)
    }
}

/// A string at the width of its slot holds a NUL character only where the
/// part of the string that is kept holds one.
pub proof fn lemma_fixed_width_nul(s: Seq<char>, width: nat)
    ensures
        !has_nul(s) ==> !has_nul(fixed_width(s, width, PAD_CHAR)),
{
    let stored = fixed_width(s, width, PAD_CHAR);
    if !has_nul(s) {
        assert forall|j: int| 0 <= j < stored.len() implies stored[j] != '\0' by {
            if j < s.len() {
                assert(stored[j] == s[j]);
                assert(s.contains(s[j]));
            }
        }
    }
}

/// A number that was stored under a key is read back under that key,
/// whatever the key held before and whatever default the reader names. This
/// holds of each of the three widths, and so of a float's bit pattern.
pub proof fn lemma_number_round_trip(
    m: Map<Seq<char>, SlotView>,
    key: Seq<char>,
    small: u8,
    word: u32,
    long: u64,
    default_small: u8,
    default_word: u32,
    default_long: u64,
)
    requires
        !has_nul(key),
    ensures
        stored_u8(after_store(m, key, SlotView::U8(small)), key, default_small) == small,
        stored_u32(after_store(m, key, SlotView::U32(word)), key, default_word) == word,
        stored_u64(after_store(m, key, SlotView::U64(long)), key, default_long) == long,
{
}

/// A string that was stored under a key is read back under that key as it
/// was, if it fits the slot and holds neither the sentinel nor a NUL
/// character.
pub proof fn lemma_stored_string_round_trip(
    m: Map<Seq<char>, SlotView>,
    key: Seq<char>,
    value: Seq<char>,
    max_size: nat,
    default: Seq<char>,
)
    requires
        !has_nul(key),
        !has_nul(value),
        !value.contains(PAD_CHAR),
        value.len() <= max_size,
    ensures
        store_outcome(key, SlotView::Text(fixed_width(value, max_size, PAD_CHAR))) is Ok,
        stored_string(
            after_store(m, key, SlotView::Text(fixed_width(value, max_size, PAD_CHAR))),
            key,
            default,
        ) == value,
{
    lemma_fixed_width_nul(value, max_size);
    lemma_string_round_trip(value, max_size);
}

/// Whatever string was stored under a key with success, what is read back
/// under that key is a prefix of it, no longer than the slot is wide.
pub proof fn lemma_stored_string_is_prefix(
    m: Map<Seq<char>, SlotView>,
    key: Seq<char>,
    value: Seq<char>,
    max_size: nat,
    default: Seq<char>,
)
    requires
        store_outcome(key, SlotView::Text(fixed_width(value, max_size, PAD_CHAR))) is Ok,
    ensures
        stored_string(
            after_store(m, key, SlotView::Text(fixed_width(value, max_size, PAD_CHAR))),
            key,
            default,
        ).len() <= max_size,
        stored_string(
            after_store(m, key, SlotView::Text(fixed_width(value, max_size, PAD_CHAR))),
            key,
            default,
        ).is_prefix_of(value),
{
    lemma_string_read_back_is_prefix(value, max_size);
}

/// Storing under one key, with success or without, changes nothing under
/// another key: what was read there before is read there after.
pub proof fn lemma_store_leaves_other_keys(
    m: Map<Seq<char>, SlotView>,
    key: Seq<char>,
    slot: SlotView,
    other: Seq<char>,
    default_text: Seq<char>,
    default_small: u8,
    default_word: u32,
    default_long: u64,
)
    requires
        other != key,
    ensures
        after_store(m, key, slot).contains_key(other) == m.contains_key(other),
        m.contains_key(other) ==> after_store(m, key, slot)[other] == m[other],
        stored_string(after_store(m, key, slot), other, default_text) == stored_string(
            m,
            other,
            default_text,
        ),
        stored_u8(after_store(m, key, slot), other, default_small) == stored_u8(
            m,
            other,
            default_small,
        ),
        stored_u32(after_store(m, key, slot), other, default_word) == stored_u32(
            m,
            other,
            default_word,
        ),
        stored_u64(after_store(m, key, slot), other, default_long) == stored_u64(
            m,
            other,
            default_long,
        ),
{
}

} // verus!
