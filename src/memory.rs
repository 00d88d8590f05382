use std::rc::Rc;
use vstd::prelude::*;

verus! {

/// An address on the bus: the widest address space the bus supports.
pub type Address = u128;

/// The largest address.
pub const ADDRESS_MAX: Address = 0xffff_ffff_ffff_ffff_ffff_ffff_ffff_ffffu128;

/// A read handler of a region: a function of the address that yields a value
/// of one width.
pub trait ReadHandler<T> {
    /// What the handler promises of the value it yields at `addr`.
    spec fn reads(&self, addr: Address, value: T) -> bool;

    fn read(&self, addr: Address) -> (r: T)
        ensures
            self.reads(addr, r),
    ;
}

/// A write handler of a region: takes the address and a value of one width.
pub trait WriteHandler<T> {
    /// What holds once the handler has taken `value` at `addr`.
    spec fn writes(&self, addr: Address, value: T) -> bool;

    fn write(&self, addr: Address, value: T)
        ensures
            self.writes(addr, value),
    ;
}

/// What a region does when no handler of the width asked for is registered.
#[derive(Clone, Copy, Debug, PartialEq, Eq, Structural)]
pub enum MemoryMapEntryType {
    /// Reads yield all-zero bits.
    UnmappedLow,
    /// Reads yield all-one bits.
    UnmappedHigh,
    /// Backed by handlers; reading without an 8-bit handler is a configuration error.
    Read,
    /// Backed by handlers; reading without an 8-bit handler is a configuration error.
    Write,
    /// Backed by handlers; reading without an 8-bit handler is a configuration error.
    ReadWrite,
}

/// The value an 8-bit read yields in a region of type `t` that has no 8-bit
/// read handler, or `None` where such a read is a configuration error.
pub open spec fn fallback_u8(t: MemoryMapEntryType) -> Option<u8> {
    match t {
        MemoryMapEntryType::UnmappedLow => Some(0u8),
        MemoryMapEntryType::UnmappedHigh => Some(0xffu8),
        _ => None,
    }
}

/// One region of the map: the inclusive range `[start, end]`, its type, and
/// an optional read and write handler for each width.
pub struct MemoryMapEntry {
    pub start: Address,
    pub end: Address,
    pub entry_type: MemoryMapEntryType,
    pub func_read_u8: Option<Rc<dyn ReadHandler<u8>>>,
    pub func_read_u16: Option<Rc<dyn ReadHandler<u16>>>,
    pub func_read_u32: Option<Rc<dyn ReadHandler<u32>>>,
    pub func_read_u64: Option<Rc<dyn ReadHandler<u64>>>,
    pub func_read_u128: Option<Rc<dyn ReadHandler<u128>>>,
    pub func_write_u8: Option<Rc<dyn WriteHandler<u8>>>,
    pub func_write_u16: Option<Rc<dyn WriteHandler<u16>>>,
    pub func_write_u32: Option<Rc<dyn WriteHandler<u32>>>,
    pub func_write_u64: Option<Rc<dyn WriteHandler<u64>>>,
    pub func_write_u128: Option<Rc<dyn WriteHandler<u128>>>,
}

/// The entry that covers the whole address space, typed `UnmappedLow`, with
/// no handlers.
pub open spec fn unmapped_entry() -> MemoryMapEntry {
    MemoryMapEntry {
        start: 0,
        end: ADDRESS_MAX,
        entry_type: MemoryMapEntryType::UnmappedLow,
        func_read_u8: None,
        func_read_u16: None,
        func_read_u32: None,
        func_read_u64: None,
        func_read_u128: None,
        func_write_u8: None,
        func_write_u16: None,
        func_write_u32: None,
        func_write_u64: None,
        func_write_u128: None,
    }
}

impl MemoryMapEntry {
    /// The range holds no address when `start > end`.
    pub open spec fn wf(&self) -> bool {
        self.start <= self.end
    }

    pub open spec fn contains(&self, addr: Address) -> bool {
        self.start <= addr <= self.end
    }

    /// The default entry: the whole address space, unmapped low, no handlers.
    pub fn new() -> (r: MemoryMapEntry)
        ensures
            r == unmapped_entry(),
            r.wf(),
    {
        MemoryMapEntry {
            start: 0,
            end: ADDRESS_MAX,
            entry_type: MemoryMapEntryType::UnmappedLow,
            func_read_u8: None,
            func_read_u16: None,
            func_read_u32: None,
            func_read_u64: None,
            func_read_u128: None,
            func_write_u8: None,
            func_write_u16: None,
            func_write_u32: None,
            func_write_u64: None,
            func_write_u128: None,
        }
    }
}

/// The index of the first of the first `n` entries of `s` that contains
/// `addr`, or -1 where none does.
pub open spec fn first_match(s: Seq<MemoryMapEntry>, addr: Address, n: nat) -> int
    decreases n,
{
    if n == 0 {
        -1
    } else {
        let k = first_match(s, addr, (n - 1) as nat);
        if k >= 0 {
            k
        } else if s[n - 1].contains(addr) {
            n - 1
        } else {
            -1
        }
    }
}

/// The map: its entries in order (the first that contains an address owns
/// it), the selected address, and the mask applied to every address.
pub struct MemoryMap {
    pub entries: Vec<MemoryMapEntry>,
    pub current_addr: Address,
    pub global_addr_mask: Address,
}

/// Why a map cannot serve a request.
#[derive(Debug, PartialEq, Eq, Structural)]
pub enum MemoryMapError {
    /// No entry owns the address.
    NoEntriesFound { addr: Address },
}

impl MemoryMap {
    /// The address that resolution uses: the selected one under the mask.
    pub open spec fn spec_addr(&self) -> Address {
        self.current_addr & self.global_addr_mask
    }

    /// Where the first entry that contains the address stands, or -1.
    pub open spec fn found(&self) -> int {
        first_match(self.entries@, self.spec_addr(), self.entries@.len())
    }

    /// The entries once resolution has run: unchanged where one contains the
    /// address, else with the default entry appended.
    pub open spec fn resolved_entries(&self) -> Seq<MemoryMapEntry> {
        if self.found() >= 0 {
            self.entries@
        } else {
            self.entries@.push(unmapped_entry())
        }
    }

    /// The index of the entry that serves the address.
    pub open spec fn active_index(&self) -> int {
        if self.found() >= 0 {
            self.found()
        } else {
            self.entries@.len() as int
        }
    }

    /// The entry that serves the address.
    pub open spec fn active(&self) -> MemoryMapEntry {
        self.resolved_entries()[self.active_index()]
    }

    /// The map after resolution, with the same address and mask.
    pub open spec fn is_resolved_from(&self, before: &MemoryMap) -> bool {
        &&& self.entries@ == before.resolved_entries()
        &&& self.current_addr == before.current_addr
        &&& self.global_addr_mask == before.global_addr_mask
    }

    /// The map once `addr` is selected: the address under the mask.
    pub open spec fn after_select(&self, addr: Address) -> MemoryMap {
        MemoryMap { current_addr: addr & self.global_addr_mask, ..*self }
    }

    /// One entry covering the whole address space, unmapped low; address 0
    /// selected; no mask.
    pub fn new() -> (r: MemoryMap)
        ensures
            r.entries@ == seq![unmapped_entry()],
            r.current_addr == 0,
            r.global_addr_mask == ADDRESS_MAX,
    {
        let mut entries: Vec<MemoryMapEntry> = Vec::new();
        entries.push(MemoryMapEntry::new());
        MemoryMap { entries, current_addr: 0, global_addr_mask: ADDRESS_MAX }
    }

    /// Whether a read of `bits` bits (8, 16, 32, 64 or 128) at the selected
    /// address can be served, so that the read may be made.
    pub fn is_readable(&self, bits: u32) -> (r: bool)
        ensures
            r == self.can_read(bits),
    {
        proof {
            lemma_first_match_bounds(self.entries@, self.spec_addr(), self.entries@.len());
        }
        match self.find_entry() {
            None => true,
            Some(i) => {
                let e = &self.entries[i];
                let r8 = e.func_read_u8.is_some() || match e.entry_type {
                    MemoryMapEntryType::UnmappedLow => true,
                    MemoryMapEntryType::UnmappedHigh => true,
                    _ => false,
                };
                let r16 = e.func_read_u16.is_some() || r8;
                let r32 = e.func_read_u32.is_some() || r16;
                let r64 = e.func_read_u64.is_some() || r32;
                let r128 = e.func_read_u128.is_some() || r64;
                if bits == 8 {
                    r8
                } else if bits == 16 {
                    r16
                } else if bits == 32 {
                    r32
                } else if bits == 64 {
                    r64
                } else {
                    r128
                }
            },
        }
    }

    fn addr(&self) -> (r: Address)
        ensures
            r == self.spec_addr(),
    {
        self.current_addr & self.global_addr_mask
    }

    /// Where the first entry that contains the address stands, if any.
    pub fn find_entry(&self) -> (r: Option<usize>)
        ensures
            r is Some <==> self.found() >= 0,
            r is Some ==> r->0 == self.found(),
    {
        let addr = self.addr();
        let mut i: usize = 0;
        while i < self.entries.len()
            invariant
                i <= self.entries@.len(),
                addr == self.spec_addr(),
                first_match(self.entries@, addr, i as nat) == -1,
            decreases self.entries@.len() - i,
        {
            let e = &self.entries[i];
            if e.start <= addr && addr <= e.end {
                proof {
                    lemma_first_match_extends(self.entries@, addr, (i + 1) as nat, self.entries@.len());
                }
                return Some(i);
            }
            i = i + 1;
        }
        None
    }
}

/// Once some entry among the first `n` contains the address, looking at more
/// entries finds the same one.
proof fn lemma_first_match_extends(s: Seq<MemoryMapEntry>, addr: Address, n: nat, m: nat)
    requires
        n <= m,
        first_match(s, addr, n) >= 0,
    ensures
        first_match(s, addr, m) == first_match(s, addr, n),
    decreases m - n,
{
    if m > n {
        lemma_first_match_extends(s, addr, n, (m - 1) as nat);
    }
}

/// The first match lies among the first `n` entries and contains the address.
proof fn lemma_first_match_bounds(s: Seq<MemoryMapEntry>, addr: Address, n: nat)
    requires
        n <= s.len(),
    ensures
        -1 <= first_match(s, addr, n) < n,
        first_match(s, addr, n) >= 0 ==> s[first_match(s, addr, n)].contains(addr),
        first_match(s, addr, n) >= 0 ==> forall|j: int|
            0 <= j < first_match(s, addr, n) ==> !(#[trigger] s[j].contains(addr)),
        first_match(s, addr, n) == -1 ==> forall|j: int| 0 <= j < n ==> !(#[trigger] s[j].contains(addr)),
    decreases n,
{
    if n > 0 {
        lemma_first_match_bounds(s, addr, (n - 1) as nat);
    }
}

/// Finds the entry that serves the selected address, appending the default
/// entry where none contains it, and returns its index.
pub fn search_entries(map: &mut MemoryMap) -> (r: usize)
    ensures
        final(map).is_resolved_from(old(map)),
        r == old(map).active_index(),
        r < final(map).entries@.len(),
        final(map).entries@[r as int] == old(map).active(),
        final(map).entries@[r as int].contains(old(map).spec_addr()),
        forall|j: int| 0 <= j < r ==> !(#[trigger] final(map).entries@[j].contains(old(map).spec_addr())),
{
    proof {
        lemma_first_match_bounds(map.entries@, map.spec_addr(), map.entries@.len());
    }
    match map.find_entry() {
        Some(i) => i,
        None => {
            let n = map.entries.len();
            map.entries.push(MemoryMapEntry::new());
            assert(map.entries@[n as int].contains(map.spec_addr()));
            n
        },
    }
}

/// Appending an entry does not change what the entries before it find.
proof fn lemma_first_match_push(s: Seq<MemoryMapEntry>, x: MemoryMapEntry, addr: Address, n: nat)
    requires
        n <= s.len(),
    ensures
        first_match(s.push(x), addr, n) == first_match(s, addr, n),
    decreases n,
{
    if n > 0 {
        lemma_first_match_push(s, x, addr, (n - 1) as nat);
    }
}

/// Resolving a map that was just resolved finds the same entry and appends
/// nothing.
pub proof fn lemma_resolve_stable(before: &MemoryMap, after: &MemoryMap)
    requires
        after.is_resolved_from(before),
    ensures
        after.found() == before.active_index(),
        after.resolved_entries() == after.entries@,
        after.active_index() == before.active_index(),
        after.active() == before.active(),
        after.spec_addr() == before.spec_addr(),
{
    let s = before.entries@;
    let a = before.spec_addr();
    lemma_first_match_bounds(s, a, s.len());
    if before.found() < 0 {
        lemma_first_match_push(s, unmapped_entry(), a, s.len());
        assert(after.entries@[s.len() as int] == unmapped_entry());
        assert(after.entries@[s.len() as int].contains(a));
    }
}

/// The 8-bit read of entry `e` at `addr` may yield `r`: the handler's value,
/// or the fill value of the entry's type.
pub open spec fn reads_u8(e: MemoryMapEntry, addr: Address, r: u8) -> bool {
    match e.func_read_u8 {
        Some(h) => h.reads(addr, r),
        None => fallback_u8(e.entry_type) == Some(r),
    }
}

/// The 16-bit read: the handler's value, or the 8-bit read zero-extended.
pub open spec fn reads_u16(e: MemoryMapEntry, addr: Address, r: u16) -> bool {
    match e.func_read_u16 {
        Some(h) => h.reads(addr, r),
        None => r <= u8::MAX && reads_u8(e, addr, r as u8),
    }
}

/// The 32-bit read: the handler's value, or the 16-bit read zero-extended.
pub open spec fn reads_u32(e: MemoryMapEntry, addr: Address, r: u32) -> bool {
    match e.func_read_u32 {
        Some(h) => h.reads(addr, r),
        None => r <= u16::MAX && reads_u16(e, addr, r as u16),
    }
}

/// The 64-bit read: the handler's value, or the 32-bit read zero-extended.
pub open spec fn reads_u64(e: MemoryMapEntry, addr: Address, r: u64) -> bool {
    match e.func_read_u64 {
        Some(h) => h.reads(addr, r),
        None => r <= u32::MAX && reads_u32(e, addr, r as u32),
    }
}

/// The 128-bit read: the handler's value, or the 64-bit read zero-extended.
pub open spec fn reads_u128(e: MemoryMapEntry, addr: Address, r: u128) -> bool {
    match e.func_read_u128 {
        Some(h) => h.reads(addr, r),
        None => r <= u64::MAX && reads_u64(e, addr, r as u64),
    }
}

/// An 8-bit read of `e` is served: by a handler or by the fill value.
pub open spec fn readable_u8(e: MemoryMapEntry) -> bool {
    e.func_read_u8 is Some || fallback_u8(e.entry_type) is Some
}

pub open spec fn readable_u16(e: MemoryMapEntry) -> bool {
    e.func_read_u16 is Some || readable_u8(e)
}

pub open spec fn readable_u32(e: MemoryMapEntry) -> bool {
    e.func_read_u32 is Some || readable_u16(e)
}

pub open spec fn readable_u64(e: MemoryMapEntry) -> bool {
    e.func_read_u64 is Some || readable_u32(e)
}

pub open spec fn readable_u128(e: MemoryMapEntry) -> bool {
    e.func_read_u128 is Some || readable_u64(e)
}

/// A read of `bits` bits of `e` is served (`bits` is one of 8, 16, 32, 64, 128).
pub open spec fn readable(e: MemoryMapEntry, bits: u32) -> bool {
    if bits == 8 {
        readable_u8(e)
    } else if bits == 16 {
        readable_u16(e)
    } else if bits == 32 {
        readable_u32(e)
    } else if bits == 64 {
        readable_u64(e)
    } else {
        readable_u128(e)
    }
}

/// Selecting an address leaves the map as selecting that address under the
/// mask does, so every later read or write behaves the same.
pub proof fn lemma_select_under_mask(m: &MemoryMap, a: Address)
    ensures
        m.after_select(a) == m.after_select(a & m.global_addr_mask),
{
    let k = m.global_addr_mask;
    assert((a & k) & k == a & k) by (bit_vector);
}

/// A map as built by default serves every address with the default entry:
/// an 8-bit read yields 0, and a write finds no handler and leaves the map
/// as it was.
pub proof fn lemma_default_map(m: &MemoryMap)
    requires
        m.entries@ == seq![unmapped_entry()],
    ensures
        m.active() == unmapped_entry(),
        m.can_read(8),
        forall|r: u8| #[trigger] reads_u8(m.active(), m.current_addr, r) <==> r == 0,
        m.active().func_write_u8 is None,
        m.resolved_entries() == m.entries@,
{
    assert(m.entries@[0].contains(m.spec_addr()));
    assert(first_match(m.entries@, m.spec_addr(), 0) == -1);
}

/// With its sole entry typed `UnmappedHigh`, a map yields all-one bits on an
/// 8-bit read at every address, and a write finds no handler and leaves the
/// map, and so that result, as it was.
pub proof fn lemma_unmapped_high_map(m: &MemoryMap)
    requires
        m.entries@ == seq![MemoryMapEntry { entry_type: MemoryMapEntryType::UnmappedHigh, ..unmapped_entry() }],
    ensures
        m.active() == m.entries@[0],
        m.can_read(8),
        forall|r: u8| #[trigger] reads_u8(m.active(), m.current_addr, r) <==> r == 0xff,
        m.active().func_write_u8 is None,
        m.resolved_entries() == m.entries@,
{
    assert(m.entries@[0].contains(m.spec_addr()));
    assert(first_match(m.entries@, m.spec_addr(), 0) == -1);
}

/// A wide read of an entry with no read handler at that width or any
/// narrower one yields the entry's 8-bit fill value zero-extended.
pub proof fn lemma_unhandled_read_is_fill(e: MemoryMapEntry, a: Address)
    requires
        e.func_read_u8 is None,
        fallback_u8(e.entry_type) is Some,
    ensures
        e.func_read_u16 is None ==> forall|r: u16| #[trigger]
            reads_u16(e, a, r) <==> r == fallback_u8(e.entry_type)->0 as u16,
        e.func_read_u16 is None && e.func_read_u32 is None ==> forall|r: u32| #[trigger]
            reads_u32(e, a, r) <==> r == fallback_u8(e.entry_type)->0 as u32,
        e.func_read_u16 is None && e.func_read_u32 is None && e.func_read_u64 is None ==> forall|
            r: u64,
        | #[trigger] reads_u64(e, a, r) <==> r == fallback_u8(e.entry_type)->0 as u64,
        e.func_read_u16 is None && e.func_read_u32 is None && e.func_read_u64 is None
            && e.func_read_u128 is None ==> forall|r: u128| #[trigger]
            reads_u128(e, a, r) <==> r == fallback_u8(e.entry_type)->0 as u128,
{
}

/// With an 8-bit read handler and no 16- or 32-bit one, a 32-bit read yields
/// one value of the 8-bit handler, widened: not four bytes put together.
pub proof fn lemma_byte_handler_widens(e: MemoryMapEntry, a: Address)
    requires
        e.func_read_u8 is Some,
        e.func_read_u16 is None,
        e.func_read_u32 is None,
    ensures
        forall|r: u32| #[trigger]
            reads_u32(e, a, r) <==> exists|v: u8| e.func_read_u8->0.reads(a, v) && r == v as u32,
{
    assert forall|r: u32| #[trigger]
        reads_u32(e, a, r) implies exists|v: u8| e.func_read_u8->0.reads(a, v) && r == v as u32 by {
        let v = r as u8;
        assert(e.func_read_u8->0.reads(a, v) && r == v as u32);
    }
}

/// Address-oriented I/O: select an address, then read or write a value of
/// 8 to 128 bits there.
pub trait Bus {
    /// A read of `bits` bits at the selected address can be served.
    spec fn can_read(&self, bits: u32) -> bool;

    fn select_address(&mut self, addr: Address);

    fn read_u8(&mut self) -> u8
        requires
            old(self).can_read(8),
    ;

    fn read_u16(&mut self) -> u16
        requires
            old(self).can_read(16),
    ;

    fn read_u32(&mut self) -> u32
        requires
            old(self).can_read(32),
    ;

    fn read_u64(&mut self) -> u64
        requires
            old(self).can_read(64),
    ;

    fn read_u128(&mut self) -> u128
        requires
            old(self).can_read(128),
    ;

    fn write_u8(&mut self, data: u8);

    fn write_u16(&mut self, data: u16);

    fn write_u32(&mut self, data: u32);

    fn write_u64(&mut self, data: u64);

    fn write_u128(&mut self, data: u128);
}

impl Bus for MemoryMap {
    open spec fn can_read(&self, bits: u32) -> bool {
        readable(self.active(), bits)
    }

    /// Selects `addr` under the mask.
    fn select_address(&mut self, addr: Address)
        ensures
            *final(self) == old(self).after_select(addr),
    {
        self.current_addr = addr & self.global_addr_mask;
    }

    /// The 8-bit read: the handler's value, else the fill value of the type.
    fn read_u8(&mut self) -> (r: u8)
        ensures
            final(self).is_resolved_from(old(self)),
            reads_u8(old(self).active(), old(self).current_addr, r),
    {
        let i = search_entries(self);
        match &self.entries[i].func_read_u8 {
            Some(h) => h.read(self.current_addr),
            None => match self.entries[i].entry_type {
                MemoryMapEntryType::UnmappedLow => 0,
                MemoryMapEntryType::UnmappedHigh => 0xff,
                // a region backed by handlers with none for this read: `can_read` excludes it
                _ => 0,
            },
        }
    }

    /// The 16-bit read: the handler's value, else the 8-bit read widened.
    fn read_u16(&mut self) -> (r: u16)
        ensures
            final(self).is_resolved_from(old(self)),
            reads_u16(old(self).active(), old(self).current_addr, r),
    {
        let ghost before = *self;
        let i = search_entries(self);
        proof {
            lemma_resolve_stable(&before, self);
        }
        match &self.entries[i].func_read_u16 {
            Some(h) => h.read(self.current_addr),
            None => self.read_u8() as u16,
        }
    }

    /// The 32-bit read: the handler's value, else the 16-bit read widened.
    fn read_u32(&mut self) -> (r: u32)
        ensures
            final(self).is_resolved_from(old(self)),
            reads_u32(old(self).active(), old(self).current_addr, r),
    {
        let ghost before = *self;
        let i = search_entries(self);
        proof {
            lemma_resolve_stable(&before, self);
        }
        match &self.entries[i].func_read_u32 {
            Some(h) => h.read(self.current_addr),
            None => self.read_u16() as u32,
        }
    }

    /// The 64-bit read: the handler's value, else the 32-bit read widened.
    fn read_u64(&mut self) -> (r: u64)
        ensures
            final(self).is_resolved_from(old(self)),
            reads_u64(old(self).active(), old(self).current_addr, r),
    {
        let ghost before = *self;
        let i = search_entries(self);
        proof {
            lemma_resolve_stable(&before, self);
        }
        match &self.entries[i].func_read_u64 {
            Some(h) => h.read(self.current_addr),
            None => self.read_u32() as u64,
        }
    }

    /// The 128-bit read: the handler's value, else the 64-bit read widened.
    fn read_u128(&mut self) -> (r: u128)
        ensures
            final(self).is_resolved_from(old(self)),
            reads_u128(old(self).active(), old(self).current_addr, r),
    {
        let ghost before = *self;
        let i = search_entries(self);
        proof {
            lemma_resolve_stable(&before, self);
        }
        match &self.entries[i].func_read_u128 {
            Some(h) => h.read(self.current_addr),
            None => self.read_u64() as u128,
        }
    }

    /// Hands `data` to the 8-bit write handler, if any; else drops it.
    fn write_u8(&mut self, data: u8)
        ensures
            final(self).is_resolved_from(old(self)),
            old(self).active().func_write_u8 is Some ==> old(self).active().func_write_u8->0.writes(
                old(self).current_addr,
                data,
            ),
    {
        let i = search_entries(self);
        if let Some(h) = &self.entries[i].func_write_u8 {
            h.write(self.current_addr, data);
        }
    }

    /// Hands `data` to the 16-bit write handler, if any; else drops it.
    fn write_u16(&mut self, data: u16)
        ensures
            final(self).is_resolved_from(old(self)),
            old(self).active().func_write_u16 is Some ==> old(self).active().func_write_u16->0.writes(
                old(self).current_addr,
                data,
            ),
    {
        let i = search_entries(self);
        if let Some(h) = &self.entries[i].func_write_u16 {
            h.write(self.current_addr, data);
        }
    }

    /// Hands `data` to the 32-bit write handler, if any; else drops it.
    fn write_u32(&mut self, data: u32)
        ensures
            final(self).is_resolved_from(old(self)),
            old(self).active().func_write_u32 is Some ==> old(self).active().func_write_u32->0.writes(
                old(self).current_addr,
                data,
            ),
    {
        let i = search_entries(self);
        if let Some(h) = &self.entries[i].func_write_u32 {
            h.write(self.current_addr, data);
        }
    }

    /// Hands `data` to the 64-bit write handler, if any; else drops it.
    fn write_u64(&mut self, data: u64)
        ensures
            final(self).is_resolved_from(old(self)),
            old(self).active().func_write_u64 is Some ==> old(self).active().func_write_u64->0.writes(
                old(self).current_addr,
                data,
            ),
    {
        let i = search_entries(self);
        if let Some(h) = &self.entries[i].func_write_u64 {
            h.write(self.current_addr, data);
        }
    }

    /// Hands `data` to the 128-bit write handler, if any; else drops it.
    fn write_u128(&mut self, data: u128)
        ensures
            final(self).is_resolved_from(old(self)),
            old(self).active().func_write_u128 is Some ==> old(self).active().func_write_u128->0.writes(
                old(self).current_addr,
                data,
            ),
    {
        let i = search_entries(self);
        if let Some(h) = &self.entries[i].func_write_u128 {
            h.write(self.current_addr, data);
        }
    }
}

} // verus!
