//! The conversion itself, on the contents of a file held in memory: bytes to
//! bitmap, and bitmap back to bytes.
use vstd::prelude::*;
use crate::digest::{get_file_hash, spec_digest};
use crate::error::{Error, ErrorKind, Result};
use crate::geometry::{supported, BITMAP_HEADER_SIZE};
use crate::header::{lemma_digest_presence, lemma_new_valid, Header};
use crate::layout::{
    lemma_bytes_len, lemma_decode_encode, lemma_decode_fields, lemma_encode_decode, lemma_u128_bytes, lemma_u16_bytes, HEADER_BYTES,
};

verus! {

/// What verifying restored contents against the header's digest gave.
#[derive(Debug, Clone, Copy, PartialEq, Eq, Structural)]
pub enum VerificationOutcome {
    /// The restored contents have the digest that was embedded.
    Verified,
    /// The restored contents have another digest.
    Mismatched,
    /// The bitmap was made without a digest.
    NotPossible,
}

/// `n` zero bytes.
pub open spec fn zeros(n: nat) -> Seq<u8> {
    Seq::new(n, |i: int| 0u8)
}

/// `s` cut or zero-extended to `n` bytes, as resizing a file does.
pub open spec fn spec_resize(s: Seq<u8>, n: nat) -> Seq<u8> {
    if n <= s.len() {
        s.subrange(0, n as int)
    } else {
        s + zeros((n - s.len()) as nat)
    }
}

/// The bitmap made from file contents `f`: extend `f` to a whole header's
/// length, append a copy of its first 178 bytes, write the header over the
/// start, and resize to the bitmap's size.
pub open spec fn spec_bin_to_bmp(f: Seq<u8>, od: Option<u128>) -> Seq<u8> {
    let h = Header::spec_new(f.len(), od);
    let ext = if f.len() < HEADER_BYTES {
        spec_resize(f, HEADER_BYTES as nat)
    } else {
        f
    };
    let appended = ext + ext.subrange(0, HEADER_BYTES as int);
    let written = h.spec_bytes() + appended.subrange(HEADER_BYTES as int, appended.len() as int);
    spec_resize(written, (h.bmp.pixmap_size + BITMAP_HEADER_SIZE) as nat)
}

/// Where a bitmap of `len` bytes with header `h` holds the copy of the
/// original start: right after the header when the original was shorter
/// than a header, else `178 + padding` bytes before the end.
pub open spec fn spec_copy_start(len: nat, h: Header) -> int {
    if h.b2b.original_file_size < HEADER_BYTES {
        HEADER_BYTES as int
    } else {
        len - HEADER_BYTES - h.b2b.padding_size
    }
}

/// The 178 bytes of `b` from `start`, zero past the end of `b`.
pub open spec fn spec_read_block(b: Seq<u8>, start: int) -> Seq<u8> {
    Seq::new(HEADER_BYTES as nat, |i: int| if start + i < b.len() { b[start + i] } else { 0u8 })
}

/// Reading bitmap contents `b` back: the restored contents with the header,
/// or the kind of failure. The copy of the original start is read, written
/// over the header, and the result is resized to the original size.
pub open spec fn spec_bmp_to_bin(b: Seq<u8>) -> std::result::Result<(Seq<u8>, Header), ErrorKind> {
    if b.len() < HEADER_BYTES {
        Err(ErrorKind::SerializationError)
    } else {
        let h = Header::spec_decode(b);
        let start = spec_copy_start(b.len(), h);
        if h.spec_check() is Some {
            Err(h.spec_check().unwrap())
        } else if start < 0 {
            Err(ErrorKind::IOError)
        } else {
            let buf = spec_read_block(b, start);
            Ok((
                spec_resize(buf + b.subrange(HEADER_BYTES as int, b.len() as int), h.b2b.original_file_size as nat),
                h,
            ))
        }
    }
}

/// The outcome that a `(verified, error)` pair of `Header::verify` stands for.
pub open spec fn spec_outcome(r: (bool, bool)) -> VerificationOutcome {
    if r.1 {
        VerificationOutcome::NotPossible
    } else if r.0 {
        VerificationOutcome::Verified
    } else {
        VerificationOutcome::Mismatched
    }
}

fn resize(v: &mut Vec<u8>, n: usize)
    ensures
        final(v)@ == spec_resize(old(v)@, n as nat),
{
    if n <= v.len() {
        while v.len() > n
            invariant
                n <= v@.len() <= old(v)@.len(),
                v@ == old(v)@.subrange(0, v@.len() as int),
            decreases v@.len(),
        {
            v.pop();
        }
        assert(v@ =~= old(v)@.subrange(0, n as int));
    } else {
        let ghost k = old(v)@.len();
        while v.len() < n
            invariant
                k <= v@.len() <= n,
                k == old(v)@.len(),
                v@ =~= old(v)@ + zeros((v@.len() - k) as nat),
            decreases n - v@.len(),
        {
            v.push(0);
            assert(v@ =~= old(v)@ + zeros((v@.len() - k) as nat));
        }
    }
}

/// Copies `src[from..from + len]` over `dst[0..len]`.
fn copy_to_start(dst: &mut Vec<u8>, src: &[u8], from: usize, len: usize)
    requires
        len <= old(dst)@.len(),
        from + len <= src@.len(),
        from + len <= usize::MAX,
    ensures
        final(dst)@ == src@.subrange(from as int, from + len) + old(dst)@.subrange(len as int, old(dst)@.len() as int),
{
    let mut i: usize = 0;
    while i < len
        invariant
            i <= len,
            len <= dst@.len(),
            from + len <= src@.len(),
            from + len <= usize::MAX,
            dst@.len() == old(dst)@.len(),
            forall|j: int| 0 <= j < i ==> dst@[j] == src@[from + j],
            forall|j: int| i <= j < dst@.len() ==> dst@[j] == old(dst)@[j],
        decreases len - i,
    {
        dst.set(i, src[from + i]);
        i = i + 1;
    }
    assert(dst@ =~= src@.subrange(from as int, from + len) + old(dst)@.subrange(len as int, old(dst)@.len() as int));
}

/// Converts file contents into a bitmap in place, embedding the contents'
/// fingerprint when `create_digest` is set.
pub fn bin_to_bmp(data: &mut Vec<u8>, create_digest: bool)
    requires
        supported(old(data)@.len()),
    ensures
        final(data)@ == spec_bin_to_bmp(
            old(data)@,
            if create_digest { Some(spec_digest(old(data)@)) } else { None },
        ),
{
    let od = if create_digest {
        Some(get_file_hash(data.as_slice()))
    } else {
        None
    };
    let file_size: u64 = data.len() as u64;
    let header = Header::new(file_size, od);
    proof {
        lemma_new_valid(old(data)@.len(), od);
    }
    if data.len() < HEADER_BYTES {
        resize(data, HEADER_BYTES);
    }
    let ghost ext = data@;
    let mut buffer: Vec<u8> = Vec::new();
    let mut i: usize = 0;
    while i < HEADER_BYTES
        invariant
            i <= HEADER_BYTES,
            data@ == ext,
            ext.len() >= HEADER_BYTES,
            buffer@ == ext.subrange(0, i as int),
        decreases HEADER_BYTES - i,
    {
        buffer.push(data[i]);
        i = i + 1;
        assert(buffer@ =~= ext.subrange(0, i as int));
    }
    let mut j: usize = 0;
    while j < HEADER_BYTES
        invariant
            j <= HEADER_BYTES,
            buffer@ == ext.subrange(0, HEADER_BYTES as int),
            ext.len() >= HEADER_BYTES,
            ext.len() <= 0x1_0000_0000,
            data@ == ext + buffer@.subrange(0, j as int),
        decreases HEADER_BYTES - j,
    {
        data.push(buffer[j]);
        j = j + 1;
        assert(data@ =~= ext + buffer@.subrange(0, j as int));
    }
    assert(buffer@.subrange(0, HEADER_BYTES as int) =~= buffer@);
    let bytes = header.to_bytes();
    copy_to_start(data, bytes.as_slice(), 0, HEADER_BYTES);
    assert(bytes@.subrange(0, HEADER_BYTES as int) =~= bytes@);
    let new_len = header.pixmap_size() + Header::bitmap_header_size();
    resize(data, new_len as usize);
}

/// Restores file contents from a bitmap in place. On success it gives, when
/// `verify` is set, whether the restored contents match the embedded digest.
/// On failure the contents are left as they were.
pub fn bmp_to_bin(data: &mut Vec<u8>, verify: bool) -> (r: Result<Option<VerificationOutcome>>)
    ensures
        match spec_bmp_to_bin(old(data)@) {
            Err(kind) => r is Err && r->Err_0.kind == kind && final(data)@ == old(data)@,
            Ok((f, h)) => r is Ok && final(data)@ == f && r->Ok_0 == if verify {
                Some(spec_outcome(h.spec_verify(spec_digest(f))))
            } else {
                None
            },
        },
{
    let header = match Header::from_bytes(data.as_slice()) {
        Ok(h) => h,
        Err(e) => return Err(e),
    };
    match header.validate() {
        Ok(()) => {},
        Err(e) => return Err(e),
    }
    let padding = header.padding_size();
    let start: usize = if (header.original_file_size() as u64) < HEADER_BYTES as u64 {
        HEADER_BYTES
    } else {
        if (data.len() as u64) < HEADER_BYTES as u64 + padding as u64 {
            return Err(Error::new(ErrorKind::IOError, "seek before the start of the data"));
        }
        data.len() - HEADER_BYTES - padding as usize
    };
    let ghost block = spec_read_block(data@, start as int);
    let mut buffer: Vec<u8> = Vec::new();
    let mut i: usize = 0;
    while i < HEADER_BYTES
        invariant
            i <= HEADER_BYTES,
            start <= data@.len(),
            data@ == old(data)@,
            block == spec_read_block(data@, start as int),
            buffer@ == block.subrange(0, i as int),
        decreases HEADER_BYTES - i,
    {
        let byte: u8 = if i < data.len() - start {
            data[start + i]
        } else {
            0
        };
        buffer.push(byte);
        i = i + 1;
        assert(buffer@ =~= block.subrange(0, i as int));
    }
    assert(buffer@ =~= block);
    copy_to_start(data, buffer.as_slice(), 0, HEADER_BYTES);
    assert(buffer@.subrange(0, HEADER_BYTES as int) =~= buffer@);
    resize(data, header.original_file_size() as usize);
    if verify {
        let digest = get_file_hash(data.as_slice());
        let (verified, error) = header.verify(digest);
        if error {
            Ok(Some(VerificationOutcome::NotPossible))
        } else if verified {
            Ok(Some(VerificationOutcome::Verified))
        } else {
            Ok(Some(VerificationOutcome::Mismatched))
        }
    } else {
        Ok(None)
    }
}

/// The start of every produced bitmap is the encoding of its header, and the
/// bitmap is `pixmap_size + 138` bytes long.
pub proof fn lemma_produced_header(f: Seq<u8>, od: Option<u128>)
    requires
        supported(f.len()),
    ensures
        ({
            let h = Header::spec_new(f.len(), od);
            let e = spec_bin_to_bmp(f, od);
            &&& e.len() == h.bmp.pixmap_size + BITMAP_HEADER_SIZE
            &&& e.len() >= HEADER_BYTES
            &&& e.subrange(0, HEADER_BYTES as int) == h.spec_bytes()
            &&& Header::spec_decode(e) == h
        }),
{
    lemma_new_valid(f.len(), od);
    let h = Header::spec_new(f.len(), od);
    let e = spec_bin_to_bmp(f, od);
    let ext = if f.len() < HEADER_BYTES {
        spec_resize(f, HEADER_BYTES as nat)
    } else {
        f
    };
    let appended = ext + ext.subrange(0, HEADER_BYTES as int);
    let written = h.spec_bytes() + appended.subrange(HEADER_BYTES as int, appended.len() as int);
    lemma_bytes_len(h);
    let target = (h.bmp.pixmap_size + BITMAP_HEADER_SIZE) as nat;
    assert(target >= HEADER_BYTES);
    assert(written.subrange(0, HEADER_BYTES as int) =~= h.spec_bytes());
    assert(e.subrange(0, HEADER_BYTES as int) =~= h.spec_bytes());
    lemma_decode_encode(h, e);
}

/// Round trip: reading back the bitmap made from `f` restores `f` exactly,
/// with the header that was written.
pub proof fn lemma_round_trip(f: Seq<u8>, od: Option<u128>)
    requires
        supported(f.len()),
    ensures
        spec_bmp_to_bin(spec_bin_to_bmp(f, od)) == Ok::<(Seq<u8>, Header), ErrorKind>(
            (f, Header::spec_new(f.len(), od)),
        ),
{
    lemma_new_valid(f.len(), od);
    lemma_produced_header(f, od);
    let h = Header::spec_new(f.len(), od);
    let e = spec_bin_to_bmp(f, od);
    let n = f.len();
    let pad = h.b2b.padding_size as nat;
    lemma_bytes_len(h);
    let ext = if n < HEADER_BYTES {
        spec_resize(f, HEADER_BYTES as nat)
    } else {
        f
    };
    let appended = ext + ext.subrange(0, HEADER_BYTES as int);
    let written = h.spec_bytes() + appended.subrange(HEADER_BYTES as int, appended.len() as int);
    let target = (h.bmp.pixmap_size + BITMAP_HEADER_SIZE) as nat;
    assert(target == n + HEADER_BYTES + pad);
    assert(e.len() == target);
    if n < HEADER_BYTES {
        assert(ext.len() == HEADER_BYTES);
        assert(written.len() == 2 * HEADER_BYTES);
        assert forall|j: int| 0 <= j < n implies e[HEADER_BYTES + j] == f[j] by {
            assert(written[HEADER_BYTES + j] == appended[HEADER_BYTES + j]);
            assert(appended[HEADER_BYTES + j] == ext[j]);
            assert(ext[j] == f[j]);
            if target <= written.len() {
                assert(e[HEADER_BYTES + j] == written[HEADER_BYTES + j]);
            } else {
                assert(e[HEADER_BYTES + j] == (written + zeros((target - written.len()) as nat))[HEADER_BYTES + j]);
            }
        }
        let buf = spec_read_block(e, HEADER_BYTES as int);
        let restored = buf + e.subrange(HEADER_BYTES as int, e.len() as int);
        assert(restored.subrange(0, n as int) =~= f);
    } else {
        assert(ext == f);
        assert(written.len() == n + HEADER_BYTES);
        assert(e =~= written + zeros(pad));
        let start = n as int;
        let buf = spec_read_block(e, start);
        assert(buf =~= f.subrange(0, HEADER_BYTES as int));
        let restored = buf + e.subrange(HEADER_BYTES as int, e.len() as int);
        assert(restored.subrange(0, n as int) =~= f);
    }
}

/// Digest presence: reading back a bitmap made with the fingerprint of `f`
/// verifies, and one made without a fingerprint cannot be verified.
pub proof fn lemma_digest_round_trip(f: Seq<u8>)
    requires
        supported(f.len()),
    ensures
        ({
            let with = spec_bmp_to_bin(spec_bin_to_bmp(f, Some(spec_digest(f))));
            let without = spec_bmp_to_bin(spec_bin_to_bmp(f, None));
            &&& with is Ok
            &&& spec_outcome(with->Ok_0.1.spec_verify(spec_digest(with->Ok_0.0)))
                == VerificationOutcome::Verified
            &&& without is Ok
            &&& spec_outcome(without->Ok_0.1.spec_verify(spec_digest(without->Ok_0.0)))
                == VerificationOutcome::NotPossible
        }),
{
    lemma_round_trip(f, Some(spec_digest(f)));
    lemma_round_trip(f, None);
    lemma_digest_presence(spec_digest(f), spec_digest(f));
    lemma_digest_presence(spec_digest(f), 0);
}

/// Corruption detection: changing a byte of the bitmap id of a produced
/// bitmap makes reading it back fail with `InvalidBitmapID`, and changing a
/// byte of the format signature makes it fail with `InvalidB2BSignature`.
pub proof fn lemma_corruption_detected(f: Seq<u8>, od: Option<u128>, i: int, v: u8)
    requires
        supported(f.len()),
        0 <= i < 2 || 146 <= i < 162,
        v != spec_bin_to_bmp(f, od)[i],
    ensures
        spec_bmp_to_bin(spec_bin_to_bmp(f, od).update(i, v)) == Err::<(Seq<u8>, Header), ErrorKind>(
            if i < 2 {
                ErrorKind::InvalidBitmapID
            } else {
                ErrorKind::InvalidB2BSignature
            },
        ),
{
    lemma_new_valid(f.len(), od);
    lemma_produced_header(f, od);
    let e = spec_bin_to_bmp(f, od);
    let c = e.update(i, v);
    let h = Header::spec_decode(e);
    let hc = Header::spec_decode(c);
    lemma_decode_fields(e);
    lemma_decode_fields(c);
    lemma_u16_bytes(e, 0);
    lemma_u16_bytes(c, 0);
    lemma_u128_bytes(e, 146);
    lemma_u128_bytes(c, 146);
    if i < 2 {
        assert(c.subrange(0, 2)[i] != e.subrange(0, 2)[i]);
        assert(hc.bmp.id != h.bmp.id);
    } else {
        assert(c.subrange(146, 162)[i - 146] != e.subrange(146, 162)[i - 146]);
        assert(hc.b2b.signature != h.b2b.signature);
        assert(hc.bmp.id == h.bmp.id);
        assert(hc.bmp.pixmap_size == h.bmp.pixmap_size);
        assert(hc.b2b.padding_size == h.b2b.padding_size);
    }
}

/// Validation depends on the 178 header bytes alone, so two parses of the
/// same bytes agree.
pub proof fn lemma_validation_deterministic(b1: Seq<u8>, b2: Seq<u8>)
    requires
        b1.len() >= HEADER_BYTES,
        b2.len() >= HEADER_BYTES,
        b1.subrange(0, HEADER_BYTES as int) == b2.subrange(0, HEADER_BYTES as int),
    ensures
        Header::spec_decode(b1) == Header::spec_decode(b2),
        Header::spec_decode(b1).spec_check() == Header::spec_decode(b2).spec_check(),
{
    lemma_encode_decode(b1);
    lemma_decode_encode(Header::spec_decode(b1), b2);
}

} // verus!
