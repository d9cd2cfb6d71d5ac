//! Bounds-checked reader for the header region of a Portable Executable
//! image.
//!
//! The reader walks the DOS stub, PE signature, COFF file header and
//! optional header of an in-memory byte buffer and extracts three fields:
//! the target machine type, the subsystem, and the entry-point RVA.  Every
//! read is bounds-checked; any malformed input yields `None` rather than a
//! panic or an out-of-bounds access.

use vstd::prelude::*;

verus! {

/// The 16-bit little-endian value held at offset `off` of `b`.
pub open spec fn le16_at(b: Seq<u8>, off: int) -> int {
    b[off] + 0x100 * b[off + 1]
}

/// The 32-bit little-endian value held at offset `off` of `b`.
pub open spec fn le32_at(b: Seq<u8>, off: int) -> int {
    b[off] + 0x100 * b[off + 1] + 0x1_0000 * b[off + 2] + 0x100_0000 * b[off + 3]
}

/// The four bytes at offset `pe` of `b` lie inside the buffer and read
/// exactly `P E NUL NUL`.
pub open spec fn sig_matches(b: Seq<u8>, pe: int) -> bool {
    &&& 0 <= pe
    &&& pe + 4 <= b.len()
    &&& b[pe] == 0x50u8
    &&& b[pe + 1] == 0x45u8
    &&& b[pe + 2] == 0u8
    &&& b[pe + 3] == 0u8
}

/// What the header reader returns on a given buffer: `Some` of the machine
/// type, subsystem and entry-point RVA exactly when every structural marker
/// of the header validates, `None` otherwise.
///
/// All offsets are from the start of the buffer; all fields are
/// little-endian.  The offset of the PE signature is read at 0x3C; the COFF
/// file header follows the four signature bytes; the optional header starts
/// 20 bytes into the COFF header and must announce at least 0x46 bytes and
/// one of the two known magic values.
pub open spec fn spec_inspect_pe(b: Seq<u8>) -> Option<(u16, u16, u32)> {
    if b.len() < 0x40 {
        None
    } else {
        let pe = le32_at(b, 0x3C);
        if !sig_matches(b, pe) {
            None
        } else {
            let coff = pe + 4;
            if coff + 18 > b.len() {
                None
            } else {
                let machine = le16_at(b, coff);
                let opt_size = le16_at(b, coff + 16);
                let opt = coff + 20;
                if opt_size < 0x46 {
                    None
                } else if opt + 2 > b.len() {
                    None
                } else {
                    let magic = le16_at(b, opt);
                    if magic != 0x10B && magic != 0x20B {
                        None
                    } else if opt + 0x14 > b.len() {
                        None
                    } else if opt + 0x46 > b.len() {
                        None
                    } else {
                        Some(
                            (
                                machine as u16,
                                le16_at(b, opt + 0x44) as u16,
                                le32_at(b, opt + 0x10) as u32,
                            ),
                        )
                    }
                }
            }
        }
    }
}

/// Reads the 16-bit little-endian value at `offset`, or `None` when the
/// two-byte window does not fit in the buffer.
pub fn read_u16_le(bytes: &[u8], offset: usize) -> (r: Option<u16>)
    ensures
        match r {
            Some(v) => offset + 2 <= bytes@.len() && v == le16_at(bytes@, offset as int),
            None => offset + 2 > bytes@.len(),
        },
{
    if bytes.len() >= 2 && offset <= bytes.len() - 2 {
        let b0 = bytes[offset];
        let b1 = bytes[offset + 1];
        Some(b0 as u16 + (b1 as u16) * 0x100)
    } else {
        None
    }
}

/// Reads the 32-bit little-endian value at `offset`, or `None` when the
/// four-byte window does not fit in the buffer.
pub fn read_u32_le(bytes: &[u8], offset: usize) -> (r: Option<u32>)
    ensures
        match r {
            Some(v) => offset + 4 <= bytes@.len() && v == le32_at(bytes@, offset as int),
            None => offset + 4 > bytes@.len(),
        },
{
    if bytes.len() >= 4 && offset <= bytes.len() - 4 {
        let b0 = bytes[offset];
        let b1 = bytes[offset + 1];
        let b2 = bytes[offset + 2];
        let b3 = bytes[offset + 3];
        Some(b0 as u32 + (b1 as u32) * 0x100 + (b2 as u32) * 0x1_0000 + (b3 as u32) * 0x100_0000)
    } else {
        None
    }
}

/// Any buffer shorter than 0x40 bytes — too short to hold the DOS header's
/// PE-offset pointer — is not recognized.
pub proof fn lemma_short_buffer_unrecognized(b: Seq<u8>)
    requires
        b.len() < 0x40,
    ensures
        spec_inspect_pe(b) is None,
{
}

/// Whenever the four bytes at the decoded PE-header offset are not exactly
/// `P E NUL NUL` — or that window does not lie inside the buffer — the
/// buffer is not recognized.
pub proof fn lemma_bad_signature_unrecognized(b: Seq<u8>)
    requires
        !sig_matches(b, le32_at(b, 0x3C)),
    ensures
        spec_inspect_pe(b) is None,
{
}

/// A buffer whose optional header announces fewer than 0x46 bytes, or whose
/// optional-header magic is neither 0x10B nor 0x20B, is not recognized.
pub proof fn lemma_bad_optional_header_unrecognized(b: Seq<u8>)
    requires
        ({
            let coff = le32_at(b, 0x3C) + 4;
            let opt = coff + 20;
            ||| (coff + 18 <= b.len() && le16_at(b, coff + 16) < 0x46)
            ||| (opt + 2 <= b.len() && le16_at(b, opt) != 0x10B && le16_at(b, opt) != 0x20B)
        }),
    ensures
        spec_inspect_pe(b) is None,
{
}

/// The parse is a pure function of the byte content: identical bytes always
/// yield the identical outcome.
pub proof fn lemma_inspect_deterministic(b1: Seq<u8>, b2: Seq<u8>)
    requires
        b1 == b2,
    ensures
        spec_inspect_pe(b1) == spec_inspect_pe(b2),
{
}

/// Parses the header region of a PE image held in `bytes`.
///
/// Returns `Some((machine, subsystem, entry_point_rva))` exactly when every
/// structural marker validates, and `None` for every other input — empty,
/// truncated or arbitrary buffers included.  No call reads outside `bytes`
/// or panics.
pub fn inspect_pe_bytes(bytes: &[u8]) -> (r: Option<(u16, u16, u32)>)
    ensures
        r == spec_inspect_pe(bytes@),
{
    if bytes.len() < 0x40 {
        return None;
    }
    let pe_offset_raw = match read_u32_le(bytes, 0x3C) {
        Some(v) => v,
        None => {
            return None;
        },
    };
    let pe_offset = pe_offset_raw as usize;

    if pe_offset > bytes.len() - 4 {
        return None;
    }
    if bytes[pe_offset] != 0x50 || bytes[pe_offset + 1] != 0x45 || bytes[pe_offset + 2] != 0
        || bytes[pe_offset + 3] != 0 {
        return None;
    }

    let coff_offset = pe_offset + 4;
    if bytes.len() - coff_offset < 18 {
        return None;
    }
    let machine = match read_u16_le(bytes, coff_offset) {
        Some(v) => v,
        None => {
            return None;
        },
    };
    let optional_size = match read_u16_le(bytes, coff_offset + 16) {
        Some(v) => v,
        None => {
            return None;
        },
    };

    if optional_size < 0x46 {
        return None;
    }
    if bytes.len() - coff_offset < 22 {
        return None;
    }
    let optional_offset = coff_offset + 20;

    let magic = match read_u16_le(bytes, optional_offset) {
        Some(v) => v,
        None => {
            return None;
        },
    };
    if magic != 0x10B && magic != 0x20B {
        return None;
    }

    if bytes.len() - optional_offset < 0x14 {
        return None;
    }
    let entry_point_rva = match read_u32_le(bytes, optional_offset + 0x10) {
        Some(v) => v,
        None => {
            return None;
        },
    };
    if bytes.len() - optional_offset < 0x46 {
        return None;
    }
    let subsystem = match read_u16_le(bytes, optional_offset + 0x44) {
        Some(v) => v,
        None => {
            return None;
        },
    };

    Some((machine, subsystem, entry_point_rva))
}

} // verus!
