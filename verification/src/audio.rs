//! Decoding of a PCM waveform container into the sample stream the speech
//! engine expects. The container is RIFF/WAVE; only 16-bit integer PCM is
//! accepted. Individual samples never fail: a trailing half sample reads
//! as zero. The channel count is deliberately not inspected: the data is
//! read as one already-mono stream, which is what the capture side
//! records. Rescaling the signed 16-bit samples by 1/32768 is left to the
//! caller's floating-point layer; the bound that makes the rescaled value
//! fall inside the unit range is proved here on the integers.

use vstd::prelude::*;

verus! {

/// Why a waveform container cannot be decoded.
#[derive(Clone, Copy, PartialEq, Eq, Structural, Debug)]
pub enum DecodeError {
    /// The container structure is not a well-formed RIFF/WAVE layout.
    MalformedHeader,
    /// The container is sound but its sample encoding is not 16-bit PCM.
    UnsupportedEncoding,
}

/// A 16-bit little-endian word read at position `i`.
pub open spec fn le16(b: Seq<u8>, i: int) -> int {
    b[i] + 256 * b[i + 1]
}

/// A 32-bit little-endian word read at position `i`.
pub open spec fn le32(b: Seq<u8>, i: int) -> int {
    b[i] + 256 * b[i + 1] + 65536 * b[i + 2] + 16777216 * b[i + 3]
}

/// The signed 16-bit sample a little-endian byte pair denotes.
pub open spec fn sample_val(lo: u8, hi: u8) -> i16 {
    if lo + 256 * hi >= 32768 {
        (lo + 256 * hi - 65536) as i16
    } else {
        (lo + 256 * hi) as i16
    }
}

/// The samples of a data payload: consecutive byte pairs, with a trailing
/// half sample reading as zero.
pub open spec fn spec_samples(data: Seq<u8>) -> Seq<i16> {
    Seq::new(
        (((data.len() + 1) / 2) as nat),
        |i: int|
            if 2 * i + 1 < data.len() {
                sample_val(data[2 * i], data[2 * i + 1])
            } else {
                0i16
            },
    )
}

/// The first chunk with the given four-byte tag at or after `off`: its
/// payload position and declared size. The scan gives up where a chunk
/// header or body would run past the end of the container.
pub open spec fn find_chunk(b: Seq<u8>, off: int, t0: u8, t1: u8, t2: u8, t3: u8) -> Option<
    (int, int),
>
    decreases b.len() - off,
{
    if off < 0 || off + 8 > b.len() {
        None
    } else {
        let size = le32(b, off + 4);
        if b[off] == t0 && b[off + 1] == t1 && b[off + 2] == t2 && b[off + 3] == t3 {
            Some((off + 8, size))
        } else {
            let next = off + 8 + size + (size % 2);
            if next > b.len() {
                None
            } else {
                find_chunk(b, next, t0, t1, t2, t3)
            }
        }
    }
}

/// What decoding a container yields: the samples of the first `data`
/// chunk, provided the container opens as RIFF/WAVE and the first `fmt `
/// chunk declares 16-bit integer PCM; the error that names what failed
/// otherwise.
pub open spec fn spec_decode(b: Seq<u8>) -> Result<Seq<i16>, DecodeError> {
    if b.len() < 12 || !(b[0] == 0x52 && b[1] == 0x49 && b[2] == 0x46 && b[3] == 0x46 && b[8]
        == 0x57 && b[9] == 0x41 && b[10] == 0x56 && b[11] == 0x45) {
        Err(DecodeError::MalformedHeader)
    } else {
        match find_chunk(b, 12, 0x66, 0x6d, 0x74, 0x20) {
            None => Err(DecodeError::MalformedHeader),
            Some((fo, fsize)) => {
                let favail = if fsize <= b.len() - fo {
                    fsize
                } else {
                    b.len() - fo
                };
                if favail < 16 {
                    Err(DecodeError::MalformedHeader)
                } else if le16(b, fo) != 1 || le16(b, fo + 14) != 16 {
                    Err(DecodeError::UnsupportedEncoding)
                } else {
                    match find_chunk(b, 12, 0x64, 0x61, 0x74, 0x61) {
                        None => Err(DecodeError::MalformedHeader),
                        Some((dofs, dsize)) => {
                            let davail = if dsize <= b.len() - dofs {
                                dsize
                            } else {
                                b.len() - dofs
                            };
                            Ok(spec_samples(b.subrange(dofs, dofs + davail)))
                        },
                    }
                }
            },
        }
    }
}

/// Find the first chunk with the given tag, starting at the first chunk
/// position of a RIFF container.
fn find_chunk_x(b: &Vec<u8>, t0: u8, t1: u8, t2: u8, t3: u8) -> (r: Option<(usize, usize)>)
    requires
        b@.len() >= 12,
    ensures
        match r {
            Some(p) => find_chunk(b@, 12, t0, t1, t2, t3) == Some((p.0 as int, p.1 as int)) && 12
                <= p.0 <= b@.len(),
            None => find_chunk(b@, 12, t0, t1, t2, t3) is None,
        },
{
    let n = b.len();
    let mut off: usize = 12;
    while n - off >= 8
        invariant
            n == b@.len(),
            12 <= off <= n,
            find_chunk(b@, 12, t0, t1, t2, t3) == find_chunk(b@, off as int, t0, t1, t2, t3),
        decreases n - off,
    {
        let s0 = b[off + 4] as u32;
        let s1 = b[off + 5] as u32;
        let s2 = b[off + 6] as u32;
        let s3 = b[off + 7] as u32;
        let size: u32 = s0 + 256 * s1 + 65536 * s2 + 16777216 * s3;
        proof {
            assert(size == le32(b@, off + 4));
        }
        if b[off] == t0 && b[off + 1] == t1 && b[off + 2] == t2 && b[off + 3] == t3 {
            return Some((off + 8, size as usize));
        }
        let next: u128 = off as u128 + 8 + size as u128 + (size as u128 % 2);
        if next > n as u128 {
            return None;
        }
        off = next as usize;
    }
    proof {
        assert(off as int + 8 > b@.len());
    }
    None
}

/// A 16-bit little-endian word at position `i`.
fn read_le16(b: &Vec<u8>, i: usize) -> (r: u32)
    requires
        i + 2 <= b@.len(),
    ensures
        r == le16(b@, i as int),
{
    // Reading the length bounds it by the machine word, and `i + 1` with it.
    let _len = b.len();
    b[i] as u32 + 256 * (b[i + 1] as u32)
}

/// Decode a PCM waveform container into its signed 16-bit samples.
pub fn decode_wav(bytes: &Vec<u8>) -> (r: Result<Vec<i16>, DecodeError>)
    ensures
        r is Ok <==> spec_decode(bytes@) is Ok,
        r is Ok ==> r->Ok_0@ == spec_decode(bytes@)->Ok_0,
        r is Err ==> r->Err_0 == spec_decode(bytes@)->Err_0,
{
    let n = bytes.len();
    if n < 12 {
        return Err(DecodeError::MalformedHeader);
    }
    if !(bytes[0] == 0x52 && bytes[1] == 0x49 && bytes[2] == 0x46 && bytes[3] == 0x46 && bytes[8]
        == 0x57 && bytes[9] == 0x41 && bytes[10] == 0x56 && bytes[11] == 0x45) {
        return Err(DecodeError::MalformedHeader);
    }
    let (fo, fsize) = match find_chunk_x(bytes, 0x66, 0x6d, 0x74, 0x20) {
        None => {
            return Err(DecodeError::MalformedHeader);
        },
        Some(p) => p,
    };
    let flimit = n - fo;
    let favail = if fsize <= flimit {
        fsize
    } else {
        flimit
    };
    if favail < 16 {
        return Err(DecodeError::MalformedHeader);
    }
    let format_tag = read_le16(bytes, fo);
    let bits = read_le16(bytes, fo + 14);
    if format_tag != 1 || bits != 16 {
        return Err(DecodeError::UnsupportedEncoding);
    }
    let (dofs, dsize) = match find_chunk_x(bytes, 0x64, 0x61, 0x74, 0x61) {
        None => {
            return Err(DecodeError::MalformedHeader);
        },
        Some(p) => p,
    };
    let dlimit = n - dofs;
    let davail = if dsize <= dlimit {
        dsize
    } else {
        dlimit
    };
    let ghost data = bytes@.subrange(dofs as int, dofs as int + davail as int);
    let mut out: Vec<i16> = Vec::new();
    let mut p: usize = 0;
    while p + 1 < davail
        invariant
            n == bytes@.len(),
            dofs + davail <= n,
            p % 2 == 0,
            p <= davail,
            data == bytes@.subrange(dofs as int, dofs as int + davail as int),
            out@.len() == p / 2,
            forall|k: int| 0 <= k < p / 2 ==> out@[k] == spec_samples(data)[k],
        decreases davail - p,
    {
        let lo = bytes[dofs + p] as u32;
        let hi = bytes[dofs + p + 1] as u32;
        let v: u32 = lo + 256 * hi;
        let s: i16 = if v >= 32768 {
            ((v as i32) - 65536) as i16
        } else {
            v as i16
        };
        proof {
            let j = p as int / 2;
            assert(2 * j == p);
            assert(data[2 * j] == bytes@[dofs + p]);
            assert(data[2 * j + 1] == bytes@[dofs + p + 1]);
            assert(s == sample_val(data[2 * j], data[2 * j + 1]));
            assert(spec_samples(data)[j] == s);
        }
        out.push(s);
        p += 2;
    }
    if davail % 2 == 1 {
        proof {
            assert(p == davail - 1);
            let j = p as int / 2;
            assert(2 * j + 1 == davail);
            assert(spec_samples(data)[j] == 0i16);
        }
        out.push(0);
    }
    proof {
        assert(out@.len() == spec_samples(data).len());
        assert(out@ =~= spec_samples(data));
    }
    Ok(out)
}

/// Law: every decoded sample is a signed 16-bit value, so dividing it by
/// the rescaling constant 32768 yields a quotient in the half-open unit
/// range: at least minus one and strictly less than one.
pub proof fn lemma_decoded_samples_bounded(b: Seq<u8>)
    ensures
        spec_decode(b) is Ok ==> forall|i: int|
            0 <= i < spec_decode(b)->Ok_0.len() ==> -32768 <= #[trigger] spec_decode(b)->Ok_0[i]
                < 32768,
{
}

} // verus!
