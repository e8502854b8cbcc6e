//! The fixed-size record written at the start of every produced bitmap: a
//! V5 bitmap header followed by the conversion record.
use vstd::prelude::*;
use crate::error::{Error, ErrorKind, Result};
use crate::geometry::{
    spec_properties, supported, lemma_geometry, total_data, width_from, spec_width,
    B2B_HEADER_SIZE, BITMAP_HEADER_SIZE, BYTES_PER_PIXEL,
};

verus! {

/// The 128-bit constant that marks a bitmap as produced by this format.
pub const B2B_SIGNATURE: u128 = 0x6FAFEC0D7EF10C4468E85B0B9C0FB9E;

/// The two bytes "BM" read as a little-endian integer.
pub const BITMAP_ID: u16 = 0x4D42;

/// The presence flag of a compact optional digest.
pub const DIGEST_FLAG: u128 = 0x8000_0000_0000_0000_0000_0000_0000_0000;

/// The 127 bits of a compact optional digest that hold the value.
pub const DIGEST_MASK: u128 = 0x7FFF_FFFF_FFFF_FFFF_FFFF_FFFF_FFFF_FFFF;

/// The bitmap file header and the V5 information header.
#[derive(Debug, Clone, Copy, PartialEq, Eq, Structural)]
pub struct BitmapV5Header {
    pub id: u16,
    pub file_size: u32,
    pub unused1: u32,
    pub offset: u32,
    pub dib_size: u32,
    pub width: u32,
    pub height: u32,
    pub pbnlanes: u16,
    pub bpp: u16,
    pub compression: u32,
    pub pixmap_size: u32,
    pub horizontal: u32,
    pub vertical: u32,
    pub palette: u32,
    pub important: u32,
    pub red_mask: u32,
    pub green_mask: u32,
    pub blue_mask: u32,
    pub alpha_mask: u32,
    pub win: u32,
    pub unused2a: u128,
    pub unused2b: u128,
    pub unused2c: u32,
    pub red_gamma: u32,
    pub green_gamma: u32,
    pub blue_gamma: u32,
    pub intent: u32,
    pub profile_data: u32,
    pub profile_size: u32,
    pub reserved: u32,
}

/// An optional 127-bit digest in one integer: the top bit says whether a
/// digest is present, the other bits hold it.
#[derive(Debug, Clone, Copy, PartialEq, Eq, Structural)]
pub struct CompactOptionalDigest(pub u128);

/// The conversion record.
#[derive(Debug, Clone, Copy, PartialEq, Eq, Structural)]
pub struct B2BHeader {
    pub padding_size: u32,
    pub original_file_size: u32,
    pub signature: u128,
    pub od: CompactOptionalDigest,
}

/// The whole record at the start of a produced bitmap.
#[derive(Debug, Clone, Copy, PartialEq, Eq, Structural)]
pub struct Header {
    pub bmp: BitmapV5Header,
    pub b2b: B2BHeader,
}

/// The header built for a file of a supported size passes every check and
/// records the geometry of that size.
pub proof fn lemma_new_valid(file_size: nat, optional_digest: Option<u128>)
    requires
        supported(file_size),
    ensures
        ({
            let h = Header::spec_new(file_size, optional_digest);
            let (w, hh, p, pad) = spec_properties(file_size);
            &&& h.spec_check() is None
            &&& h.bmp.pixmap_size == p
            &&& h.bmp.width == w
            &&& h.bmp.height == hh
            &&& h.bmp.offset == BITMAP_HEADER_SIZE
            &&& h.b2b.padding_size == pad
            &&& h.b2b.original_file_size == file_size
            &&& p + BITMAP_HEADER_SIZE <= u32::MAX
            &&& p >= file_size + B2B_HEADER_SIZE
            &&& pad + file_size + B2B_HEADER_SIZE == p
        }),
{
    lemma_geometry(file_size);
}

/// Digest presence: a header built without a digest cannot be verified; one
/// built with digest `d` verifies exactly the values that agree with `d` on
/// the low 127 bits.
pub proof fn lemma_digest_presence(d: u128, other: u128)
    ensures
        forall|n: nat| supported(n) ==> Header::spec_new(n, None).spec_verify(other) == (false, true),
        forall|n: nat| supported(n) ==> Header::spec_new(n, Some(d)).spec_verify(other)
            == (d & DIGEST_MASK == other & DIGEST_MASK, false),
        forall|n: nat| supported(n) ==> Header::spec_new(n, Some(d)).spec_verify(d) == (true, false),
{
    assert((d | 0x8000_0000_0000_0000_0000_0000_0000_0000u128)
        & 0x8000_0000_0000_0000_0000_0000_0000_0000u128 != 0) by (bit_vector);
    assert((d | 0x8000_0000_0000_0000_0000_0000_0000_0000u128)
        & 0x7FFF_FFFF_FFFF_FFFF_FFFF_FFFF_FFFF_FFFFu128
        == d & 0x7FFF_FFFF_FFFF_FFFF_FFFF_FFFF_FFFF_FFFFu128) by (bit_vector);
    assert(0u128 & 0x8000_0000_0000_0000_0000_0000_0000_0000u128 == 0) by (bit_vector);
}

impl CompactOptionalDigest {
    pub open spec fn spec_new(optional_digest: Option<u128>) -> u128 {
        match optional_digest {
            None => 0,
            Some(num) => num | DIGEST_FLAG,
        }
    }

    /// The digest held, if the presence flag is set.
    pub open spec fn spec_get(self) -> Option<u128> {
        if self.0 & DIGEST_FLAG != 0 {
            Some(self.0 & DIGEST_MASK)
        } else {
            None
        }
    }

    pub fn new(optional_digest: Option<u128>) -> (r: Self)
        ensures
            r.0 == Self::spec_new(optional_digest),
            r.spec_get() == match optional_digest {
                None => None,
                Some(num) => Some(num & DIGEST_MASK),
            },
    {
        let compact = match optional_digest {
            None => 0,
            Some(num) => num | DIGEST_FLAG,
        };
        proof {
            if let Some(num) = optional_digest {
                assert((num | 0x8000_0000_0000_0000_0000_0000_0000_0000u128)
                    & 0x8000_0000_0000_0000_0000_0000_0000_0000u128 != 0) by (bit_vector);
                assert((num | 0x8000_0000_0000_0000_0000_0000_0000_0000u128)
                    & 0x7FFF_FFFF_FFFF_FFFF_FFFF_FFFF_FFFF_FFFFu128
                    == num & 0x7FFF_FFFF_FFFF_FFFF_FFFF_FFFF_FFFF_FFFFu128) by (bit_vector);
            } else {
                assert(0u128 & 0x8000_0000_0000_0000_0000_0000_0000_0000u128 == 0) by (bit_vector);
            }
        }
        CompactOptionalDigest(compact)
    }

    pub fn get(&self) -> (r: Option<u128>)
        ensures
            r == self.spec_get(),
    {
        if self.0 & DIGEST_FLAG != 0 {
            Some(self.0 & DIGEST_MASK)
        } else {
            None
        }
    }

    /// Whether the held digest equals the low 127 bits of `other`.
    pub fn compare(&self, other: u128) -> (r: bool)
        requires
            self.spec_get() is Some,
        ensures
            r == (self.spec_get().unwrap() == other & DIGEST_MASK),
    {
        self.get().unwrap() == (other & DIGEST_MASK)
    }
}

impl BitmapV5Header {
    pub open spec fn spec_new(width: u32, height: u32, pixmap_size: u32) -> BitmapV5Header {
        BitmapV5Header {
            id: BITMAP_ID,
            file_size: (pixmap_size + BITMAP_HEADER_SIZE) as u32,
            unused1: 0,
            offset: BITMAP_HEADER_SIZE,
            dib_size: (BITMAP_HEADER_SIZE - 14) as u32,
            width,
            height,
            pbnlanes: 1,
            bpp: (BYTES_PER_PIXEL * 8) as u16,
            compression: 3,
            pixmap_size,
            horizontal: 4000,
            vertical: 4000,
            palette: 0,
            important: 0,
            red_mask: 0xFF0000,
            green_mask: 0xFF00,
            blue_mask: 0xFF,
            alpha_mask: 0xFF000000,
            win: 0x57696E20,
            unused2a: 0,
            unused2b: 0,
            unused2c: 0,
            red_gamma: 0,
            green_gamma: 0,
            blue_gamma: 0,
            intent: 0,
            profile_data: 0,
            profile_size: 0,
            reserved: 0,
        }
    }

    pub fn new(width: u32, height: u32, pixmap_size: u32) -> (r: Self)
        requires
            pixmap_size + BITMAP_HEADER_SIZE <= u32::MAX,
        ensures
            r == Self::spec_new(width, height, pixmap_size),
    {
        let file_size = pixmap_size + BITMAP_HEADER_SIZE;
        BitmapV5Header {
            id: BITMAP_ID,
            file_size,
            unused1: 0,
            offset: BITMAP_HEADER_SIZE,
            dib_size: BITMAP_HEADER_SIZE - 14,
            width,
            height,
            pbnlanes: 1,
            bpp: BYTES_PER_PIXEL as u16 * 8,
            compression: 3,
            pixmap_size,
            horizontal: 4000,
            vertical: 4000,
            palette: 0,
            important: 0,
            red_mask: 0xFF0000,
            green_mask: 0xFF00,
            blue_mask: 0xFF,
            alpha_mask: 0xFF000000,
            win: 0x57696E20,
            unused2a: 0,
            unused2b: 0,
            unused2c: 0,
            red_gamma: 0,
            green_gamma: 0,
            blue_gamma: 0,
            intent: 0,
            profile_data: 0,
            profile_size: 0,
            reserved: 0,
        }
    }
}

impl B2BHeader {
    pub open spec fn spec_new(padding_size: u32, file_size: u64, optional_digest: Option<u128>) -> B2BHeader {
        B2BHeader {
            padding_size,
            original_file_size: file_size as u32,
            signature: B2B_SIGNATURE,
            od: CompactOptionalDigest(CompactOptionalDigest::spec_new(optional_digest)),
        }
    }

    pub fn new(padding_size: u32, file_size: u64, optional_digest: Option<u128>) -> (r: Self)
        requires
            file_size <= u32::MAX,
        ensures
            r == Self::spec_new(padding_size, file_size, optional_digest),
    {
        B2BHeader {
            padding_size,
            original_file_size: file_size as u32,
            signature: B2B_SIGNATURE,
            od: CompactOptionalDigest::new(optional_digest),
        }
    }
}

impl Header {
    /// The header of the bitmap made from a file of `file_size` bytes.
    pub open spec fn spec_new(file_size: nat, optional_digest: Option<u128>) -> Header {
        let (w, h, p, pad) = spec_properties(file_size);
        Header {
            bmp: BitmapV5Header::spec_new(w as u32, h as u32, p as u32),
            b2b: B2BHeader::spec_new(pad as u32, file_size as u64, optional_digest),
        }
    }

    /// The three checks that a header read back must pass, in order.
    pub open spec fn spec_check(self) -> Option<ErrorKind> {
        if self.bmp.id != BITMAP_ID {
            Some(ErrorKind::InvalidBitmapID)
        } else if self.b2b.padding_size >= self.bmp.pixmap_size {
            Some(ErrorKind::BadPaddingSize)
        } else if self.b2b.signature != B2B_SIGNATURE {
            Some(ErrorKind::InvalidB2BSignature)
        } else {
            None
        }
    }

    /// `(verified, error)`: `error` when the header carries no digest,
    /// else whether the digest matches the low 127 bits of `other_digest`.
    pub open spec fn spec_verify(self, other_digest: u128) -> (bool, bool) {
        match self.b2b.od.spec_get() {
            None => (false, true),
            Some(d) => (d == other_digest & DIGEST_MASK, false),
        }
    }

    pub fn new(file_size: u64, optional_digest: Option<u128>) -> (r: Self)
        requires
            supported(file_size as nat),
        ensures
            r == Self::spec_new(file_size as nat, optional_digest),
            r.spec_check() is None,
            r.b2b.original_file_size == file_size,
            r.bmp.pixmap_size == r.bmp.width * r.bmp.height * 4,
            r.b2b.padding_size < r.bmp.pixmap_size,
            r.bmp.pixmap_size >= file_size + B2B_HEADER_SIZE,
            r.b2b.padding_size + file_size + B2B_HEADER_SIZE == r.bmp.pixmap_size,
    {
        let (width, height, pixmap_size, padding_size) = Self::get_properties(file_size);
        proof {
            lemma_geometry(file_size as nat);
        }
        Header {
            bmp: BitmapV5Header::new(width, height, pixmap_size),
            b2b: B2BHeader::new(padding_size, file_size, optional_digest),
        }
    }

    pub fn pixmap_size(&self) -> (r: u32)
        ensures
            r == self.bmp.pixmap_size,
    {
        self.bmp.pixmap_size
    }

    pub fn padding_size(&self) -> (r: u32)
        ensures
            r == self.b2b.padding_size,
    {
        self.b2b.padding_size
    }

    pub fn original_file_size(&self) -> (r: u32)
        ensures
            r == self.b2b.original_file_size,
    {
        self.b2b.original_file_size
    }

    /// Fails unless the conversion record carries this format's signature.
    pub fn check_signature(&self) -> (r: Result<()>)
        ensures
            r is Err <==> self.b2b.signature != B2B_SIGNATURE,
            r is Err ==> r->Err_0.kind == ErrorKind::InvalidB2BSignature,
    {
        if self.b2b.signature != B2B_SIGNATURE {
            Err(Error::new(ErrorKind::InvalidB2BSignature, ""))
        } else {
            Ok(())
        }
    }

    /// Fails unless the bitmap header starts with the bitmap id.
    pub fn check_id(&self) -> (r: Result<()>)
        ensures
            r is Err <==> self.bmp.id != BITMAP_ID,
            r is Err ==> r->Err_0.kind == ErrorKind::InvalidBitmapID,
    {
        if self.bmp.id != BITMAP_ID {
            Err(Error::new(ErrorKind::InvalidBitmapID, ""))
        } else {
            Ok(())
        }
    }

    /// Fails unless the padding is shorter than the pixel data.
    pub fn check_padding_size(&self) -> (r: Result<()>)
        ensures
            r is Err <==> self.b2b.padding_size >= self.bmp.pixmap_size,
            r is Err ==> r->Err_0.kind == ErrorKind::BadPaddingSize,
    {
        if self.padding_size() >= self.pixmap_size() {
            Err(Error::new(ErrorKind::BadPaddingSize, ""))
        } else {
            Ok(())
        }
    }

    /// Runs the id, padding and signature checks in that order.
    pub fn validate(&self) -> (r: Result<()>)
        ensures
            r is Err <==> self.spec_check() is Some,
            r is Err ==> r->Err_0.kind == self.spec_check().unwrap(),
    {
        self.check_id()?;
        self.check_padding_size()?;
        self.check_signature()
    }

    /// Returns a `(verified, error)` pair: `error` is set when the header
    /// carries no digest, so that verification is not possible.
    pub fn verify(&self, other_digest: u128) -> (r: (bool, bool))
        ensures
            r == self.spec_verify(other_digest),
    {
        match self.b2b.od.get() {
            None => (false, true),
            Some(_) => (self.b2b.od.compare(other_digest), false),
        }
    }

    /// Width, height, pixel-data size and padding of the grid for a file of
    /// `file_size` bytes.
    fn get_properties(file_size: u64) -> (r: (u32, u32, u32, u32))
        requires
            supported(file_size as nat),
        ensures
            r.0 as nat == spec_properties(file_size as nat).0,
            r.1 as nat == spec_properties(file_size as nat).1,
            r.2 as nat == spec_properties(file_size as nat).2,
            r.3 as nat == spec_properties(file_size as nat).3,
            r.2 == r.0 * r.1 * 4,
            r.3 < r.2,
            r.2 >= file_size + B2B_HEADER_SIZE,
            r.3 == r.2 - file_size - B2B_HEADER_SIZE,
    {
        proof {
            lemma_geometry(file_size as nat);
        }
        let total_data_size: u64 = file_size + Self::b2b_header_size() as u64;
        let bpp: u64 = Self::bytes_per_pixel() as u64;
        let ghost t = total_data(file_size as nat);
        let mut width: u64 = 0;
        while width * width * bpp < total_data_size
            invariant
                t == total_data_size,
                bpp == 4,
                width <= spec_width(t),
                width <= 0x8000,
                width * width <= 0x4000_0000,
                t >= 40,
                width_from(t, width as nat) == spec_width(t),
                spec_width(t) <= 0x8000,
            decreases t - width,
        {
            proof {
                assert(width < t) by (nonlinear_arith)
                    requires width * width * 4 < t, t >= 40;
                assert(4 * (width as nat) * (width as nat) < t) by (nonlinear_arith)
                    requires width * width * 4 < t;
                assert(width_from(t, width as nat) == width_from(t, (width + 1) as nat));
                crate::geometry::lemma_width_from_ge(t, (width + 1) as nat);
            }
            width = width + 1;
            assert(width * width <= 0x4000_0000) by (nonlinear_arith)
                requires width <= 0x8000;
        }
        assert(4 * (width as nat) * (width as nat) >= t) by (nonlinear_arith)
            requires width * width * 4 >= t;
        assert(width as nat == spec_width(t));
        assert(width * bpp == 4 * width);
        let height: u64 = (total_data_size + width * bpp - 1) / (width * bpp);
        let pixmap_size: u64 = width * height * bpp;
        let padding_size: u64 = pixmap_size - total_data_size;
        (width as u32, height as u32, pixmap_size as u32, padding_size as u32)
    }

    pub fn total_header_size() -> (r: u32)
        ensures
            r == BITMAP_HEADER_SIZE + B2B_HEADER_SIZE,
    {
        Self::bitmap_header_size() + Self::b2b_header_size()
    }

    pub fn bitmap_header_size() -> (r: u32)
        ensures
            r == BITMAP_HEADER_SIZE,
    {
        BITMAP_HEADER_SIZE
    }

    pub fn b2b_header_size() -> (r: u32)
        ensures
            r == B2B_HEADER_SIZE,
    {
        B2B_HEADER_SIZE
    }

    pub fn bytes_per_pixel() -> (r: u32)
        ensures
            r == BYTES_PER_PIXEL,
    {
        BYTES_PER_PIXEL
    }
}

} // verus!
