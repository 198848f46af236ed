//! Location of the trap table and classification of addresses inside it.
use vstd::prelude::*;

verus! {

/// Number of classes in the trap table.
pub const TRAP_CLASS_COUNT: u32 = 8;

/// Size in bytes of one trap-table entry.
pub const TRAP_ENTRY_SIZE: u32 = 32;

/// Size in bytes of the whole trap table.
pub const TRAP_TABLE_SIZE: u32 = 256;

/// Name of the linker symbol that marks the start of the trap table.
pub open spec fn trap_table_symbol_name() -> Seq<u8> {
    seq![
        // "first_trap_table" in ASCII
        102u8, 105u8, 114u8, 115u8, 116u8, 95u8, 116u8, 114u8, 97u8, 112u8, 95u8, 116u8, 97u8,
        98u8, 108u8, 101u8,
    ]
}

/// Why the trap table could not be located in a binary.
#[derive(Debug, Clone, Copy, PartialEq, Eq, Structural)]
pub enum TrapError {
    /// The bytes are not an ELF image, or its symbol table cannot be parsed.
    InvalidElf,
    /// The ELF image carries no symbol table.
    MissingSymbolTable,
    /// The symbol table has no symbol named `first_trap_table`.
    MissingTrapSymbol,
    /// The `first_trap_table` symbol does not fit a 32-bit address.
    TrapSymbolOutOfRange,
}

/// One entry of an ELF symbol table: its name, when the string table yields
/// one, and its value.
pub struct ElfSymbol {
    pub name: Option<Vec<u8>>,
    pub value: u64,
}

impl View for ElfSymbol {
    type V = (Option<Seq<u8>>, u64);

    open spec fn view(&self) -> (Option<Seq<u8>>, u64) {
        (
            match self.name {
                Some(n) => Some(n@),
                None => None,
            },
            self.value,
        )
    }
}

pub open spec fn symbols_view(symbols: Seq<ElfSymbol>) -> Seq<(Option<Seq<u8>>, u64)> {
    symbols.map_values(|s: ElfSymbol| s@)
}

/// The symbol table of an ELF image as the `elf` crate reads it: `None` when
/// the image cannot be parsed, `Some(None)` when it has no symbol table.
pub uninterp spec fn elf_symbol_table(data: Seq<u8>) -> Option<Option<Seq<(Option<Seq<u8>>, u64)>>>;

/// Relies on `elf::ElfBytes::minimal_parse` and `ElfBytes::symbol_table` to
/// read the symbol table, and on `elf::string_table::StringTable::get` for
/// each symbol's name.
#[verifier::external_body]
fn read_symbol_table(data: &[u8]) -> (r: Option<Option<Vec<ElfSymbol>>>)
    ensures
        match r {
            None => elf_symbol_table(data@) is None,
            Some(None) => elf_symbol_table(data@) == Some(None::<Seq<(Option<Seq<u8>>, u64)>>),
            Some(Some(v)) => elf_symbol_table(data@) == Some(Some(symbols_view(v@))),
        },
{
    let elf = elf::ElfBytes::<elf::endian::AnyEndian>::minimal_parse(data).ok()?;
    Some(elf.symbol_table().ok()?.map(|(symbols, strings)| {
        symbols.iter().map(|s| ElfSymbol {
            name: strings.get(s.st_name as usize).ok().map(|n| n.as_bytes().to_vec()),
            value: s.st_value,
        }).collect()
    }))
}

/// The value of the first symbol named `first_trap_table`.
pub open spec fn first_trap_symbol(symbols: Seq<(Option<Seq<u8>>, u64)>) -> Option<u64>
    decreases symbols.len(),
{
    if symbols.len() == 0 {
        None
    } else if symbols[0].0 == Some(trap_table_symbol_name()) {
        Some(symbols[0].1)
    } else {
        first_trap_symbol(symbols.drop_first())
    }
}

/// Where a symbol table puts the trap table, or why it puts it nowhere.
pub open spec fn trap_symbol_from(symbols: Seq<(Option<Seq<u8>>, u64)>) -> Result<u32, TrapError> {
    match first_trap_symbol(symbols) {
        None => Err(TrapError::MissingTrapSymbol),
        Some(v) => if v <= u32::MAX {
            Ok(v as u32)
        } else {
            Err(TrapError::TrapSymbolOutOfRange)
        },
    }
}

/// Where an ELF image puts the trap table, or why it puts it nowhere.
pub open spec fn trap_symbol_from_elf(data: Seq<u8>) -> Result<u32, TrapError> {
    match elf_symbol_table(data) {
        None => Err(TrapError::InvalidElf),
        Some(None) => Err(TrapError::MissingSymbolTable),
        Some(Some(symbols)) => trap_symbol_from(symbols),
    }
}

fn trap_table_name_bytes() -> (r: Vec<u8>)
    ensures
        r@ == trap_table_symbol_name(),
{
    let r = vec![
        // "first_trap_table" in ASCII
        102u8, 105u8, 114u8, 115u8, 116u8, 95u8, 116u8, 114u8, 97u8, 112u8, 95u8, 116u8, 97u8,
        98u8, 108u8, 101u8,
    ];
    assert(r@ =~= trap_table_symbol_name());
    r
}

fn bytes_equal(a: &Vec<u8>, b: &Vec<u8>) -> (r: bool)
    ensures
        r == (a@ == b@),
{
    if a.len() != b.len() {
        return false;
    }
    let mut i: usize = 0;
    while i < a.len()
        invariant
            a@.len() == b@.len(),
            0 <= i <= a@.len(),
            forall|j: int| 0 <= j < i ==> a@[j] == b@[j],
        decreases a@.len() - i,
    {
        if a[i] != b[i] {
            return false;
        }
        i = i + 1;
    }
    assert(a@ =~= b@);
    true
}

/// Information about where the trap table is located.
pub struct TrapMetadata {
    /// The start of the trap table as an absolute address in code space.
    pub trap_symbol: u32,
}

/// The trap class of `address` for a table starting at `trap_symbol`:
/// the index of the 32-byte entry it falls into, or `None` outside the
/// 256 bytes of the table.
pub open spec fn trap_class_at(trap_symbol: u32, address: u32) -> Option<u8> {
    if trap_symbol <= address && address - trap_symbol < TRAP_TABLE_SIZE {
        Some(((address - trap_symbol) / (TRAP_ENTRY_SIZE as int)) as u8)
    } else {
        None
    }
}

impl TrapMetadata {
    pub open spec fn spec_trap_class(&self, address: u32) -> Option<u8> {
        trap_class_at(self.trap_symbol, address)
    }

    /// Trap metadata for a table that starts at `trap_symbol`.
    pub fn new(trap_symbol: u32) -> (r: Self)
        ensures
            r.trap_symbol == trap_symbol,
    {
        TrapMetadata { trap_symbol }
    }

    /// Locates the trap table through the symbol `first_trap_table` of an
    /// already read symbol table.
    pub fn from_symbol_table(symbols: &Vec<ElfSymbol>) -> (r: Result<TrapMetadata, TrapError>)
        ensures
            match trap_symbol_from(symbols_view(symbols@)) {
                Ok(a) => r matches Ok(m) && m.trap_symbol == a,
                Err(e) => r == Err::<TrapMetadata, TrapError>(e),
            },
    {
        let name = trap_table_name_bytes();
        let n = symbols.len();
        let mut i: usize = 0;
        assert(symbols_view(symbols@).subrange(0, n as int) =~= symbols_view(symbols@));
        while i < n
            invariant
                n == symbols@.len(),
                0 <= i <= n,
                name@ == trap_table_symbol_name(),
                first_trap_symbol(symbols_view(symbols@)) == first_trap_symbol(
                    symbols_view(symbols@).subrange(i as int, n as int),
                ),
            decreases n - i,
        {
            let ghost rest = symbols_view(symbols@).subrange(i as int, n as int);
            assert(rest[0] == symbols@[i as int]@);
            assert(rest.drop_first() =~= symbols_view(symbols@).subrange(i + 1, n as int));
            let found = match &symbols[i].name {
                Some(s) => bytes_equal(s, &name),
                None => false,
            };
            if found {
                let value = symbols[i].value;
                if value > 0xffff_ffff {
                    return Err(TrapError::TrapSymbolOutOfRange);
                }
                return Ok(TrapMetadata { trap_symbol: value as u32 });
            }
            i = i + 1;
        }
        Err(TrapError::MissingTrapSymbol)
    }

    /// Infers where the trap table is by looking up the symbol
    /// `first_trap_table` in the symbol table of an ELF image.
    ///
    /// The proper source would be the base trap vector register of the
    /// device; the linker symbol stands in for it when no device is attached.
    pub fn from_elf(elf_data: &[u8]) -> (r: Result<TrapMetadata, TrapError>)
        ensures
            match trap_symbol_from_elf(elf_data@) {
                Ok(a) => r matches Ok(m) && m.trap_symbol == a,
                Err(e) => r == Err::<TrapMetadata, TrapError>(e),
            },
    {
        match read_symbol_table(elf_data) {
            None => Err(TrapError::InvalidElf),
            Some(None) => Err(TrapError::MissingSymbolTable),
            Some(Some(symbols)) => TrapMetadata::from_symbol_table(&symbols),
        }
    }

    /// The class of the trap-table entry that `program_counter` points into,
    /// or `None` when it lies outside the table.
    pub fn trap_class(&self, program_counter: u32) -> (r: Option<u8>)
        ensures
            r == self.spec_trap_class(program_counter),
    {
        if program_counter < self.trap_symbol {
            return None;
        }
        let offset_in_trap_table: u32 = program_counter - self.trap_symbol;
        if offset_in_trap_table >= TRAP_TABLE_SIZE {
            return None;
        }
        let class: u32 = offset_in_trap_table / TRAP_ENTRY_SIZE;
        Some(class as u8)
    }
}

/// Inside the table, the class is the offset divided by the entry size, and
/// it is one of the eight classes.
pub proof fn lemma_trap_class_inside(m: TrapMetadata, address: u32)
    requires
        m.trap_symbol <= address,
        address < m.trap_symbol + TRAP_TABLE_SIZE,
    ensures
        m.spec_trap_class(address) == Some(((address - m.trap_symbol) / 32) as u8),
        ((address - m.trap_symbol) / 32) < TRAP_CLASS_COUNT,
{
}

/// Below the table, or at or past its end, no class is given.
pub proof fn lemma_trap_class_outside(m: TrapMetadata, address: u32)
    requires
        address < m.trap_symbol || address >= m.trap_symbol + TRAP_TABLE_SIZE,
    ensures
        m.spec_trap_class(address) is None,
{
}

} // verus!
