//! The size of the ELF runtime that precedes the embedded filesystem image:
//! the larger of the end of the section header table and the end of the
//! last program segment.
use vstd::prelude::*;


verus! {

/// What the runtime reads of an ELF file header and its program headers.
pub struct ElfLayout {
    /// `e_shoff`: file offset of the section header table.
    pub sh_offset: u64,
    /// `e_shentsize`: size of one section header.
    pub sh_entry_size: u16,
    /// `e_shnum`: number of section headers.
    pub sh_count: u16,
    /// `(p_offset, p_filesz)` of each program header, in table order.
    pub segments: Vec<(u64, u64)>,
}

/// `e_shoff`, `e_shentsize`, `e_shnum`, and each program header's
/// `(p_offset, p_filesz)`.
pub type ElfFields = (u64, u16, u16, Seq<(u64, u64)>);

/// Why no ELF size could be computed.
pub enum ElfSizeError {
    /// The ELF parser refused the bytes; its message.
    Parse(String),
    /// An end offset does not fit in 64 bits.
    Overflow,
}

/// The header fields and last program header that the `elf` crate's stream
/// parser reads from `data`, or the text of the error it reports.
pub uninterp spec fn elf_layout(data: Seq<u8>) -> Result<ElfFields, Seq<char>>;

impl ElfLayout {
    pub open spec fn fields(&self) -> ElfFields {
        (self.sh_offset, self.sh_entry_size, self.sh_count, self.segments@)
    }
}

/// End of the section header table.
pub open spec fn section_table_end(f: ElfFields) -> int {
    f.0 + f.1 * f.2
}

/// End of the last program header's segment (the last in the table, not
/// the one ending furthest), 0 when there is none.
pub open spec fn last_segment_end(f: ElfFields) -> int {
    if f.3.len() > 0 {
        f.3.last().0 + f.3.last().1
    } else {
        0
    }
}

/// Both ends fit in a `u64`.
pub open spec fn layout_fits(f: ElfFields) -> bool {
    section_table_end(f) <= u64::MAX && last_segment_end(f) <= u64::MAX
}

/// The size of the ELF file: the larger of the two ends.
pub open spec fn elf_extent(f: ElfFields) -> int {
    if section_table_end(f) >= last_segment_end(f) {
        section_table_end(f)
    } else {
        last_segment_end(f)
    }
}

/// Parses `data` with the `elf` crate's `ElfStream::open_stream` (any
/// endianness) over an in-memory cursor and reads `e_shoff`, `e_shentsize`,
/// `e_shnum` and the offset and file size of every program header. The
/// contract claims only that the result is the one the parser gives for these
/// bytes, error text included.
#[verifier::external_body]
fn read_elf_layout(data: &[u8]) -> (r: Result<ElfLayout, String>)
    ensures
        match r {
            Ok(l) => elf_layout(data@) == Ok::<_, Seq<char>>(l.fields()),
            Err(m) => elf_layout(data@) == Err::<ElfFields, _>(m@),
        },
{
    match elf::ElfStream::<elf::endian::AnyEndian, _>::open_stream(std::io::Cursor::new(data)) {
        Ok(f) => Ok(ElfLayout {
            sh_offset: f.ehdr.e_shoff,
            sh_entry_size: f.ehdr.e_shentsize,
            sh_count: f.ehdr.e_shnum,
            segments: f.segments().iter().map(|p| (p.p_offset, p.p_filesz)).collect(),
        }),
        Err(e) => Err(e.to_string()),
    }
}

/// The size of the ELF file described by `layout`.
pub fn layout_extent(layout: &ElfLayout) -> (size: u64)
    requires
        layout_fits(layout.fields()),
    ensures
        size == elf_extent(layout.fields()),
{
    let table: u64 = layout.sh_offset + (layout.sh_entry_size as u64) * (layout.sh_count as u64);
    let n = layout.segments.len();
    let segment: u64 = if n > 0 {
        let (off, size) = layout.segments[n - 1];
        off + size
    } else {
        0
    };
    if table >= segment {
        table
    } else {
        segment
    }
}

/// Whether both ends of `layout` fit in 64 bits.
pub fn layout_fits_u64(layout: &ElfLayout) -> (ok: bool)
    ensures
        ok == layout_fits(layout.fields()),
{
    let e: u64 = layout.sh_entry_size as u64;
    let c: u64 = layout.sh_count as u64;
    assert(e * c <= 0xffff * 0xffff) by (nonlinear_arith)
        requires
            e <= 0xffff,
            c <= 0xffff,
    ;
    let product: u64 = e * c;
    if layout.sh_offset > u64::MAX - product {
        return false;
    }
    let n = layout.segments.len();
    if n > 0 {
        let (off, size) = layout.segments[n - 1];
        off <= u64::MAX - size
    } else {
        true
    }
}

/// The size of the ELF runtime stored in `data`: the larger of the end of
/// its section header table and the end of its last program segment.
pub fn get_elf_size(data: &[u8]) -> (r: Result<u64, ElfSizeError>)
    ensures
        match elf_layout(data@) {
            Err(m) => r matches Err(ElfSizeError::Parse(t)) && t@ == m,
            Ok(f) => if layout_fits(f) {
                r == Ok::<u64, ElfSizeError>(elf_extent(f) as u64)
            } else {
                r matches Err(ElfSizeError::Overflow)
            },
        },
{
    match read_elf_layout(data) {
        Err(m) => Err(ElfSizeError::Parse(m)),
        Ok(layout) => {
            if layout_fits_u64(&layout) {
                Ok(layout_extent(&layout))
            } else {
                Err(ElfSizeError::Overflow)
            }
        },
    }
}

impl ElfSizeError {
    /// The error as the runtime reports it.
    pub open spec fn spec_message(&self) -> Seq<char> {
        match self {
            ElfSizeError::Parse(m) => "Parsing elf: "@ + m@,
            ElfSizeError::Overflow => "Parsing elf: size overflows 64 bits"@,
        }
    }

    /// The error as the runtime reports it, with the context of the step
    /// that failed in front of the parser's message.
    pub fn message(&self) -> (s: String)
        ensures
            s@ == self.spec_message(),
    {
        match self {
            ElfSizeError::Parse(m) => {
                let mut s = "Parsing elf: ".to_owned();
                s.append(m.as_str());
                s
            },
            ElfSizeError::Overflow => "Parsing elf: size overflows 64 bits".to_owned(),
        }
    }
}

/// The ELF size is the larger of `e_shoff + e_shentsize * e_shnum` and the
/// end `p_offset + p_filesz` of the last program header (0 without one),
/// and it is computed whenever both ends, taken as integers, fit in 64 bits.
pub proof fn lemma_extent_is_larger_end(f: ElfFields)
    ensures
        ({
            let table_end = f.0 + f.1 * f.2;
            let seg_end = if f.3.len() > 0 { f.3[f.3.len() - 1].0 + f.3[f.3.len() - 1].1 } else { 0 };
            &&& (table_end <= 0xFFFF_FFFF_FFFF_FFFF && seg_end <= 0xFFFF_FFFF_FFFF_FFFF) == layout_fits(f)
            &&& elf_extent(f) >= table_end
            &&& elf_extent(f) >= seg_end
            &&& (elf_extent(f) == table_end || elf_extent(f) == seg_end)
        }),
{
}

} // verus!
