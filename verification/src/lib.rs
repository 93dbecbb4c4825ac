//! Record code coverage traces in the drcov format.
//!
//! A [`Trace`] holds a fixed list of [`Module`]s (loaded code images with
//! their address ranges) and an append-only log of executed basic blocks.
//! Each recorded block is resolved to the first module containing its
//! address and stored as a compact record relative to that module's base.
//! [`Trace::write`] serializes the whole trace into the drcov file layout:
//! text headers, a text module table, and a binary basic-block table.

use vstd::prelude::*;
use vstd::string::StringSliceAdditionalSpecFns;
use vstd::utf8::{is_ascii_chars, is_ascii_chars_encode_utf8};

mod emit;

verus! {

/// The version of the drcov format to use.
#[derive(Clone, Copy, Debug, PartialEq, Eq, Structural)]
pub enum Version {
    /// Drcov version 2.
    V2,
    /// Drcov version 3.
    V3,
}

impl Default for Version {
    /// The default drcov format revision is version 2.
    fn default() -> (r: Self)
        ensures
            r == Version::V2,
    {
        Version::V2
    }
}

/// Contains information about a single module in the program's address space.
#[derive(Clone, Copy, Debug, PartialEq)]
pub struct Module {
    name: &'static str,
    base: u64,
    end: u64,
}

/// The reason a [`Module`] could not be constructed.
#[derive(Clone, Copy, Debug, PartialEq, Eq, Structural)]
pub enum ConstructionError {
    /// The base address was not strictly below the end address.
    BadBounds,
    /// The module spans more bytes than a 32-bit offset can address.
    TooLarge,
}

impl Module {
    /// The UTF-8 bytes of the module's display name.
    pub closed spec fn spec_name(self) -> Seq<u8> {
        self.name.spec_bytes()
    }

    /// The inclusive lower bound of the module's address range.
    pub closed spec fn spec_base(self) -> u64 {
        self.base
    }

    /// The exclusive upper bound of the module's address range.
    pub closed spec fn spec_end(self) -> u64 {
        self.end
    }

    /// True iff `address` lies within the module's address range.
    pub open spec fn spec_contains(self, address: u64) -> bool {
        self.spec_base() <= address < self.spec_end()
    }

    #[verifier::type_invariant]
    spec fn wf(self) -> bool {
        &&& self.base < self.end
        &&& self.end - self.base <= u32::MAX
    }

    /// Create a new [`Module`] spanning `base..end`.
    ///
    /// Fails with [`ConstructionError::BadBounds`] unless `base < end`, and
    /// with [`ConstructionError::TooLarge`] if the span exceeds `u32::MAX`
    /// bytes, so that every block offset inside the module fits the 32-bit
    /// offset field of the record format.
    pub fn new(name: &'static str, base: u64, end: u64) -> (r: Result<Module, ConstructionError>)
        ensures
            base < end && end - base <= u32::MAX <==> r is Ok,
            match r {
                Ok(m) => {
                    &&& m.spec_name() == name.spec_bytes()
                    &&& m.spec_base() == base
                    &&& m.spec_end() == end
                },
                Err(e) => if base >= end {
                    e == ConstructionError::BadBounds
                } else {
                    e == ConstructionError::TooLarge
                },
            },
    {
        if base >= end {
            Err(ConstructionError::BadBounds)
        } else if end - base > u32::MAX as u64 {
            Err(ConstructionError::TooLarge)
        } else {
            Ok(Module { name, base, end })
        }
    }

    /// Returns true if the given address is within this `Module`.
    pub fn contains(&self, address: u64) -> (r: bool)
        ensures
            r == self.spec_contains(address),
    {
        self.base <= address && address < self.end
    }
}

/// Represents a single executed basic block in a module.
#[derive(Clone, Copy, Debug, PartialEq, Eq, Structural)]
pub struct BasicBlockEntry {
    /// Offset of the basic block start from the image base.
    pub start: u32,
    /// Size of the basic block.
    pub size: u16,
    /// Id of the module where the basic block is located.
    pub mod_id: u16,
}

/// The reason a coverage event could not be recorded.
#[derive(Clone, Copy, Debug, PartialEq, Eq, Structural)]
pub enum RecordError {
    /// The address does not fall inside any module known to the trace.
    AddressNotMapped,
    /// The basic-block size exceeds the 16-bit record field.
    SizeOverflow,
}

/// The id of the first module in `mods`, at position `from` or later, whose
/// range contains `address`, or `None` if no such module exists.
pub open spec fn spec_find(mods: Seq<Module>, address: u64, from: int) -> Option<int>
    decreases mods.len() - from,
{
    if from < 0 || from >= mods.len() {
        None
    } else if mods[from].spec_contains(address) {
        Some(from)
    } else {
        spec_find(mods, address, from + 1)
    }
}

/// The id of the first (lowest-id) module in `mods` containing `address`.
pub open spec fn spec_resolve(mods: Seq<Module>, address: u64) -> Option<int> {
    spec_find(mods, address, 0)
}

/// Resolution returns the first module containing the address: a result of
/// `Some(k)` means module `k` contains the address and no earlier module
/// does; `None` means no module at position `from` or later contains it.
pub proof fn lemma_find_first(mods: Seq<Module>, address: u64, from: int)
    requires
        0 <= from <= mods.len(),
    ensures
        match spec_find(mods, address, from) {
            Some(k) => {
                &&& from <= k < mods.len()
                &&& mods[k].spec_contains(address)
                &&& forall|j: int| from <= j < k ==> !mods[j].spec_contains(address)
            },
            None => forall|j: int|
                from <= j < mods.len() ==> !mods[j].spec_contains(address),
        },
    decreases mods.len() - from,
{
    if from < mods.len() && !mods[from].spec_contains(address) {
        lemma_find_first(mods, address, from + 1);
    }
}

/// Represents a collection of code coverage information.
#[derive(Debug)]
pub struct Trace {
    /// Collection of all modules added to the trace.
    modules: Vec<Module>,
    /// Collection of all basic block entries recorded in the trace.
    entries: Vec<BasicBlockEntry>,
    /// A string used to describe the tool that generated the coverage information.
    flavor: &'static str,
    /// The drcov file format version to use.
    version: Version,
}

impl Trace {
    /// The trace's modules, in id order.
    pub closed spec fn spec_modules(self) -> Seq<Module> {
        self.modules@
    }

    /// The recorded basic-block entries, in insertion order.
    pub closed spec fn spec_entries(self) -> Seq<BasicBlockEntry> {
        self.entries@
    }

    /// The UTF-8 bytes of the flavor label written to the file header.
    pub closed spec fn spec_flavor(self) -> Seq<u8> {
        self.flavor.spec_bytes()
    }

    /// The drcov format revision the trace serializes as.
    pub closed spec fn spec_version(self) -> Version {
        self.version
    }

    #[verifier::type_invariant]
    spec fn wf(self) -> bool {
        self.modules@.len() <= 0x10000
    }

    /// Create a new drcov trace using the given modules.
    ///
    /// The position of each module in `modules` becomes its id, the value
    /// every basic-block record refers to it by; the record's id field is
    /// 16 bits wide, which bounds how many modules a trace can hold.
    ///
    /// # Arguments
    ///
    /// * `modules` - An array of modules to add to the trace.
    pub fn new(modules: &[Module]) -> (t: Trace)
        requires
            modules@.len() <= 0x10000,
        ensures
            t.spec_modules() == modules@,
            t.spec_entries() == Seq::<BasicBlockEntry>::empty(),
            t.spec_flavor() == "drcov".spec_bytes(),
            t.spec_version() == Version::V2,
    {
        Trace {
            modules: vstd::slice::slice_to_vec(modules),
            entries: Vec::new(),
            flavor: "drcov",
            version: Version::V2,
        }
    }

    /// Returns a reference to the [`Module`] containing the given address or None if an unknown address.
    ///
    /// The module list is scanned in id order; the first match wins.
    pub fn get_module(&self, address: u64) -> (r: Option<&Module>)
        ensures
            match (r, spec_resolve(self.spec_modules(), address)) {
                (Some(m), Some(k)) => *m == self.spec_modules()[k],
                (None, None) => true,
                _ => false,
            },
    {
        let mut i: usize = 0;
        while i < self.modules.len()
            invariant
                i <= self.modules@.len(),
                spec_find(self.modules@, address, 0)
                    == spec_find(self.modules@, address, i as int),
            decreases self.modules@.len() - i,
        {
            if self.modules[i].contains(address) {
                return Some(&self.modules[i]);
            }
            i = i + 1;
        }
        None
    }

    /// Add a new coverage entry to the [`Trace`].
    ///
    /// The address is resolved against the module list; if no module
    /// contains it the event cannot be attributed and is rejected, leaving
    /// the trace unchanged. Otherwise the entry is appended with its offset
    /// from the owning module's base, provided `size` fits the 16-bit
    /// record field.
    ///
    /// # Arguments
    ///
    /// * `address` - The start address of the basic block to record.
    /// * `size` - The size of the basic block in bytes.
    pub fn add(&mut self, address: u64, size: usize) -> (r: Result<(), RecordError>)
        ensures
            match spec_resolve(old(self).spec_modules(), address) {
                None => {
                    &&& r == Err::<(), RecordError>(RecordError::AddressNotMapped)
                    &&& *final(self) == *old(self)
                },
                Some(k) => {
                    &&& old(self).spec_modules()[k].spec_contains(address)
                    &&& old(self).spec_modules()[k].spec_end()
                        - old(self).spec_modules()[k].spec_base() <= u32::MAX
                    &&& if size > u16::MAX {
                        &&& r == Err::<(), RecordError>(RecordError::SizeOverflow)
                        &&& *final(self) == *old(self)
                    } else {
                        &&& r == Ok::<(), RecordError>(())
                        &&& final(self).spec_entries() == old(self).spec_entries().push(
                            (BasicBlockEntry {
                                start: (address - old(self).spec_modules()[k].spec_base()) as u32,
                                size: size as u16,
                                mod_id: k as u16,
                            }),
                        )
                        &&& final(self).spec_modules() == old(self).spec_modules()
                        &&& final(self).spec_flavor() == old(self).spec_flavor()
                        &&& final(self).spec_version() == old(self).spec_version()
                    }
                },
            },
    {
        proof {
            use_type_invariant(&*self);
        }
        let mut i: usize = 0;
        while i < self.modules.len()
            invariant
                *self == *old(self),
                i <= self.modules@.len(),
                spec_find(self.modules@, address, 0)
                    == spec_find(self.modules@, address, i as int),
            decreases self.modules@.len() - i,
        {
            let m = &self.modules[i];
            if m.contains(address) {
                proof {
                    use_type_invariant(m);
                }
                if size > u16::MAX as usize {
                    return Err(RecordError::SizeOverflow);
                }
                let entry = BasicBlockEntry {
                    start: (address - m.base) as u32,
                    size: size as u16,
                    mod_id: i as u16,
                };
                let mut entries: Vec<BasicBlockEntry> = Vec::new();
                proof {
                    use_type_invariant(&*self);
                }
                std::mem::swap(&mut entries, &mut self.entries);
                entries.push(entry);
                self.entries = entries;
                return Ok(());
            }
            i = i + 1;
        }
        Err(RecordError::AddressNotMapped)
    }
}

/// The 8-byte binary record of one basic-block entry: the 32-bit start
/// offset, the 16-bit size, and the 16-bit module id, each little-endian.
pub open spec fn spec_entry_bytes(e: BasicBlockEntry) -> Seq<u8> {
    emit::le32_bytes(e.start) + emit::le16_bytes(e.size) + emit::le16_bytes(e.mod_id)
}

/// The binary basic-block table: the records of `entries` concatenated in
/// insertion order.
pub open spec fn spec_bb_blob(entries: Seq<BasicBlockEntry>) -> Seq<u8>
    decreases entries.len(),
{
    if entries.len() == 0 {
        Seq::empty()
    } else {
        spec_bb_blob(entries.drop_last()) + spec_entry_bytes(entries.last())
    }
}

/// One row of the module table. The two constant `0` columns stand for the
/// containing-id and entry-point attributes, which this system does not
/// track; the trailing `0` before the name is the offset column.
pub open spec fn spec_module_row(id: nat, m: Module) -> Seq<u8> {
    emit::dec_bytes(id) + ", 0, 0x".spec_bytes() + emit::hex_bytes(m.spec_base() as nat)
        + ", 0x".spec_bytes() + emit::hex_bytes(m.spec_end() as nat) + ", 0, 0, ".spec_bytes()
        + m.spec_name() + "\n".spec_bytes()
}

/// The rows of the module table, one per module, in id order.
pub open spec fn spec_module_rows(mods: Seq<Module>) -> Seq<u8>
    decreases mods.len(),
{
    if mods.len() == 0 {
        Seq::empty()
    } else {
        spec_module_rows(mods.drop_last()) + spec_module_row((mods.len() - 1) as nat, mods.last())
    }
}

/// The first header line, naming the format revision.
pub open spec fn spec_version_line(v: Version) -> Seq<u8> {
    "DRCOV VERSION: ".spec_bytes() + (match v {
        Version::V2 => "2".spec_bytes(),
        Version::V3 => "3".spec_bytes(),
    }) + "\n".spec_bytes()
}

/// The second header line, naming the producing tool.
pub open spec fn spec_flavor_line(flavor: Seq<u8>) -> Seq<u8> {
    "DRCOV FLAVOR: ".spec_bytes() + flavor + "\n".spec_bytes()
}

/// The module-table section: its two header lines (the fixed table-schema
/// version and the module count, then the column names) followed by one row
/// per module.
pub open spec fn spec_module_table(mods: Seq<Module>) -> Seq<u8> {
    "Module Table: version 4, count ".spec_bytes() + emit::dec_bytes(mods.len())
        + "\n".spec_bytes()
        + "Columns: id, containing_id, start, end, entry, offset, path\n".spec_bytes()
        + spec_module_rows(mods)
}

/// The basic-block section header, declaring the entry count.
pub open spec fn spec_bb_header(count: nat) -> Seq<u8> {
    "BB Table: ".spec_bytes() + emit::dec_bytes(count) + " bbs\n".spec_bytes()
}

/// True iff no byte of `s` is an ASCII line feed.
pub open spec fn newline_free(s: Seq<u8>) -> bool {
    forall|i: int| 0 <= i < s.len() ==> s[i] != 10
}

/// The number of ASCII line-feed bytes in `s`: how many newline-terminated
/// lines a consumer reading `s` as text sees.
pub open spec fn newline_count(s: Seq<u8>) -> nat
    decreases s.len(),
{
    if s.len() == 0 {
        0
    } else {
        newline_count(s.drop_last()) + if s.last() == 10 { 1nat } else { 0nat }
    }
}

proof fn lemma_newline_count_concat(a: Seq<u8>, b: Seq<u8>)
    ensures
        newline_count(a + b) == newline_count(a) + newline_count(b),
    decreases b.len(),
{
    if b.len() == 0 {
        assert(a + b =~= a);
    } else {
        assert((a + b).drop_last() =~= a + b.drop_last());
        lemma_newline_count_concat(a, b.drop_last());
    }
}

proof fn lemma_newline_count_free(s: Seq<u8>)
    requires
        newline_free(s),
    ensures
        newline_count(s) == 0,
    decreases s.len(),
{
    if s.len() > 0 {
        lemma_newline_count_free(s.drop_last());
    }
}

proof fn lemma_newline_count_lits()
    ensures
        newline_count(", 0, 0x".spec_bytes()) == 0,
        newline_count(", 0x".spec_bytes()) == 0,
        newline_count(", 0, 0, ".spec_bytes()) == 0,
        newline_count("\n".spec_bytes()) == 1,
{
    reveal_strlit(", 0, 0x");
    reveal_strlit(", 0x");
    reveal_strlit(", 0, 0, ");
    reveal_strlit("\n");
    assert(is_ascii_chars(", 0, 0x"@));
    assert(is_ascii_chars(", 0x"@));
    assert(is_ascii_chars(", 0, 0, "@));
    assert(is_ascii_chars("\n"@));
    is_ascii_chars_encode_utf8(", 0, 0x"@);
    is_ascii_chars_encode_utf8(", 0x"@);
    is_ascii_chars_encode_utf8(", 0, 0, "@);
    is_ascii_chars_encode_utf8("\n"@);
    assert(newline_free(", 0, 0x".spec_bytes()));
    assert(newline_free(", 0x".spec_bytes()));
    assert(newline_free(", 0, 0, ".spec_bytes()));
    lemma_newline_count_free(", 0, 0x".spec_bytes());
    lemma_newline_count_free(", 0x".spec_bytes());
    lemma_newline_count_free(", 0, 0, ".spec_bytes());
    assert("\n".spec_bytes() =~= seq![10u8]);
    assert(newline_count(Seq::<u8>::empty()) == 0);
    assert(seq![10u8].last() == 10u8);
    assert(seq![10u8].drop_last() =~= Seq::<u8>::empty());
    assert(newline_count(seq![10u8].drop_last()) == 0);
    assert(newline_count(seq![10u8]) == 1);
}

proof fn lemma_newline_count_row(id: nat, m: Module)
    requires
        newline_free(m.spec_name()),
    ensures
        newline_count(spec_module_row(id, m)) == 1,
{
    lemma_newline_count_lits();
    emit::lemma_dec_bytes_digits(id);
    assert(newline_free(emit::dec_bytes(id)));
    lemma_newline_count_free(emit::dec_bytes(id));
    emit::lemma_hex_bytes_digits(m.spec_base() as nat);
    assert(newline_free(emit::hex_bytes(m.spec_base() as nat)));
    lemma_newline_count_free(emit::hex_bytes(m.spec_base() as nat));
    emit::lemma_hex_bytes_digits(m.spec_end() as nat);
    assert(newline_free(emit::hex_bytes(m.spec_end() as nat)));
    lemma_newline_count_free(emit::hex_bytes(m.spec_end() as nat));
    lemma_newline_count_free(m.spec_name());
    let a1 = emit::dec_bytes(id);
    let a2 = ", 0, 0x".spec_bytes();
    let a3 = emit::hex_bytes(m.spec_base() as nat);
    let a4 = ", 0x".spec_bytes();
    let a5 = emit::hex_bytes(m.spec_end() as nat);
    let a6 = ", 0, 0, ".spec_bytes();
    let a7 = m.spec_name();
    let a8 = "\n".spec_bytes();
    lemma_newline_count_concat(a1, a2);
    lemma_newline_count_concat(a1 + a2, a3);
    lemma_newline_count_concat(a1 + a2 + a3, a4);
    lemma_newline_count_concat(a1 + a2 + a3 + a4, a5);
    lemma_newline_count_concat(a1 + a2 + a3 + a4 + a5, a6);
    lemma_newline_count_concat(a1 + a2 + a3 + a4 + a5 + a6, a7);
    lemma_newline_count_concat(a1 + a2 + a3 + a4 + a5 + a6 + a7, a8);
}

/// The module table holds exactly one newline-terminated row per module,
/// provided no module name contains a line feed itself (a name with one
/// would split its row in two for a consumer reading the table by lines).
pub proof fn lemma_module_rows_line_count(mods: Seq<Module>)
    requires
        forall|k: int| 0 <= k < mods.len() ==> newline_free(#[trigger] mods[k].spec_name()),
    ensures
        newline_count(spec_module_rows(mods)) == mods.len(),
    decreases mods.len(),
{
    if mods.len() > 0 {
        lemma_module_rows_line_count(mods.drop_last());
        lemma_newline_count_row((mods.len() - 1) as nat, mods.last());
        lemma_newline_count_concat(
            spec_module_rows(mods.drop_last()),
            spec_module_row((mods.len() - 1) as nat, mods.last()),
        );
    }
}

/// The binary basic-block table is exactly 8 bytes per recorded entry.
pub proof fn lemma_bb_blob_len(entries: Seq<BasicBlockEntry>)
    ensures
        spec_bb_blob(entries).len() == 8 * entries.len(),
    decreases entries.len(),
{
    if entries.len() > 0 {
        lemma_bb_blob_len(entries.drop_last());
    }
}

/// The shape of a serialized trace: the module table holds one
/// newline-terminated row per module of the trace, and the binary table at
/// the end of the output is exactly 8 bytes per recorded entry. The proviso
/// on the names is as in [`lemma_module_rows_line_count`].
pub proof fn lemma_encoding_shape(t: Trace)
    requires
        forall|k: int|
            0 <= k < t.spec_modules().len() ==> newline_free(
                #[trigger] t.spec_modules()[k].spec_name(),
            ),
    ensures
        newline_count(spec_module_rows(t.spec_modules())) == t.spec_modules().len(),
        spec_bb_blob(t.spec_entries()).len() == 8 * t.spec_entries().len(),
{
    lemma_module_rows_line_count(t.spec_modules());
    lemma_bb_blob_len(t.spec_entries());
}

impl BasicBlockEntry {
    /// Append this entry's 8-byte binary record to `out`.
    fn write(&self, out: &mut Vec<u8>)
        ensures
            final(out)@ == old(out)@ + spec_entry_bytes(*self),
    {
        emit::push_le32(out, self.start);
        emit::push_le16(out, self.size);
        emit::push_le16(out, self.mod_id);
        proof {
            assert(out@ =~= old(out)@ + spec_entry_bytes(*self));
        }
    }
}

/// Append the format-version header line to `out`.
fn push_version_line(out: &mut Vec<u8>, v: Version)
    ensures
        final(out)@ == old(out)@ + spec_version_line(v),
{
    emit::push_str(out, "DRCOV VERSION: ");
    match v {
        Version::V2 => emit::push_str(out, "2"),
        Version::V3 => emit::push_str(out, "3"),
    }
    emit::push_str(out, "\n");
    proof {
        assert(out@ =~= old(out)@ + spec_version_line(v));
    }
}

/// Append one module-table row to `out`.
fn push_module_row(out: &mut Vec<u8>, id: u64, m: &Module)
    ensures
        final(out)@ == old(out)@ + spec_module_row(id as nat, *m),
{
    emit::push_dec(out, id);
    emit::push_str(out, ", 0, 0x");
    emit::push_hex(out, m.base);
    emit::push_str(out, ", 0x");
    emit::push_hex(out, m.end);
    emit::push_str(out, ", 0, 0, ");
    emit::push_str(out, m.name);
    emit::push_str(out, "\n");
    proof {
        assert(out@ =~= old(out)@ + spec_module_row(id as nat, *m));
    }
}

impl Trace {
    /// The full serialized form of the trace: the two header lines, the
    /// module table, the basic-block section header, and the binary
    /// basic-block table, in that order with no other separators.
    pub open spec fn spec_encoding(self) -> Seq<u8> {
        spec_version_line(self.spec_version()) + spec_flavor_line(self.spec_flavor())
            + spec_module_table(self.spec_modules())
            + spec_bb_header(self.spec_entries().len()) + spec_bb_blob(self.spec_entries())
    }

    /// Append the coverage information to `out` in the drcov format.
    #[verifier::rlimit(60)]
    pub fn write(&self, out: &mut Vec<u8>)
        ensures
            final(out)@ == old(out)@ + self.spec_encoding(),
    {
        // Write the drcov header.
        push_version_line(out, self.version);
        emit::push_str(out, "DRCOV FLAVOR: ");
        emit::push_str(out, self.flavor);
        emit::push_str(out, "\n");

        // Write the module table.
        emit::push_str(out, "Module Table: version 4, count ");
        emit::push_dec(out, self.modules.len() as u64);
        emit::push_str(out, "\n");
        emit::push_str(out, "Columns: id, containing_id, start, end, entry, offset, path\n");

        let ghost head = old(out)@ + spec_version_line(self.spec_version())
            + spec_flavor_line(self.spec_flavor())
            + "Module Table: version 4, count ".spec_bytes()
            + emit::dec_bytes(self.spec_modules().len()) + "\n".spec_bytes()
            + "Columns: id, containing_id, start, end, entry, offset, path\n".spec_bytes();
        proof {
            assert(out@ =~= head);
        }

        let mut i: usize = 0;
        while i < self.modules.len()
            invariant
                i <= self.modules@.len(),
                out@ == head + spec_module_rows(self.modules@.take(i as int)),
            decreases self.modules@.len() - i,
        {
            push_module_row(out, i as u64, &self.modules[i]);
            i = i + 1;
            proof {
                let taken = self.modules@.take(i as int);
                assert(taken.drop_last() =~= self.modules@.take(i - 1));
                assert(out@ =~= head + (spec_module_rows(taken.drop_last())
                    + spec_module_row((i - 1) as nat, taken.last())));
            }
        }
        proof {
            assert(self.modules@.take(self.modules@.len() as int) =~= self.modules@);
        }

        // Write the basic block entries.
        emit::push_str(out, "BB Table: ");
        emit::push_dec(out, self.entries.len() as u64);
        emit::push_str(out, " bbs\n");

        let ghost mid = head + spec_module_rows(self.spec_modules())
            + spec_bb_header(self.spec_entries().len());
        proof {
            assert(out@ =~= mid);
        }

        let mut j: usize = 0;
        while j < self.entries.len()
            invariant
                j <= self.entries@.len(),
                out@ == mid + spec_bb_blob(self.entries@.take(j as int)),
            decreases self.entries@.len() - j,
        {
            self.entries[j].write(out);
            j = j + 1;
            proof {
                let taken = self.entries@.take(j as int);
                assert(taken.drop_last() =~= self.entries@.take(j - 1));
                assert(out@ =~= mid + (spec_bb_blob(taken.drop_last())
                    + spec_entry_bytes(taken.last())));
            }
        }
        proof {
            assert(self.entries@.take(self.entries@.len() as int) =~= self.entries@);
            assert(out@ =~= old(out)@ + self.spec_encoding());
        }
    }
}

} // verus!
