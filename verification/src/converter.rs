//! Sector addressing and assembly: minute/second/frame timecodes derived
//! from a logical block address, the Mode 1 sector layout, and the
//! conversion of 2048-byte user-data blocks into encoded raw sectors.

use vstd::arithmetic::div_mod::lemma_fundamental_div_mod;
use vstd::prelude::*;

use crate::edc_ecc::{
    calc_mode1_edc_with, calc_p_parity_with, calc_q_parity_with, encoded, lemma_encoded_points,
    zero_seq, Tables,
};

verus! {

/// Size of one block of user data read from an ISO image.
pub const ISO_SECTOR_SIZE: usize = 2048;

/// Size of one fully encoded raw Mode 1 sector.
pub const RAW_SECTOR_SIZE: usize = 2352;

/// Largest logical block address whose timecode minute still fits in two
/// decimal digits: (MAX_LBA + 150) / 75 / 60 == 99.
pub const MAX_LBA: u32 = 449849;

/// Minute field of the timecode for a logical block address, after the
/// fixed 150-frame (two second) lead-in offset.
pub open spec fn minute_of(lba: u32) -> int {
    ((lba + 150) / 75) / 60
}

/// Second field of the timecode for a logical block address.
pub open spec fn second_of(lba: u32) -> int {
    ((lba + 150) / 75) % 60
}

/// Frame field of the timecode for a logical block address.
pub open spec fn frame_of(lba: u32) -> int {
    (lba + 150) % 75
}

/// A two-digit value packed as binary-coded decimal: tens in the high
/// nibble, ones in the low nibble.
pub open spec fn bcd_byte(value: u8) -> u8 {
    (((value / 10) as u8) << 4) | ((value % 10) as u8)
}

/// The fixed 12-byte synchronization pattern that opens every raw sector.
pub open spec fn spec_sync_pattern() -> Seq<u8> {
    seq![
        0x00u8, 0xFFu8, 0xFFu8, 0xFFu8, 0xFFu8, 0xFFu8, 0xFFu8, 0xFFu8, 0xFFu8, 0xFFu8,
        0xFFu8, 0x00u8,
    ]
}

/// The 4-byte sector header: the three BCD timecode bytes and the fixed
/// Mode 1 mode byte.
pub open spec fn header_bytes(lba: u32) -> Seq<u8> {
    seq![
        bcd_byte(minute_of(lba) as u8),
        bcd_byte(second_of(lba) as u8),
        bcd_byte(frame_of(lba) as u8),
        0x01u8,
    ]
}

/// The 2352-byte buffer of a freshly assembled sector, before the encoding
/// pass: sync, header and user data, with EDC, reserved bytes and both
/// parity fields still zero.
pub open spec fn initial_sector_bytes(lba: u32, data: Seq<u8>) -> Seq<u8> {
    spec_sync_pattern() + header_bytes(lba) + data + zero_seq(288)
}

/// The 2352 bytes of the fully encoded raw sector for one block of user
/// data: the assembled buffer with EDC and both parity layers filled in.
pub open spec fn encoded_sector(lba: u32, data: Seq<u8>) -> Seq<u8> {
    encoded(initial_sector_bytes(lba, data))
}

/// The error reported when a caller hands a block or buffer of the wrong
/// size.
#[derive(Debug, Clone, Copy, PartialEq, Eq, Structural)]
pub enum ConvertError {
    SizeMismatch { expected: usize, got: usize },
}

/// Timecode of a sector: minute, second and frame, each limited to two
/// decimal digits.
#[derive(Debug, Clone, Copy)]
pub struct SectorAddress {
    pub minute: u8,
    pub second: u8,
    pub frame: u8,
}

impl SectorAddress {
    /// All three fields fit in two decimal digits, so each can be packed
    /// as one BCD byte.
    pub open spec fn wf(self) -> bool {
        self.minute <= 99 && self.second <= 99 && self.frame <= 99
    }

    /// Derive the timecode from a logical block address: add the fixed
    /// 150-frame offset, then split at 75 frames per second and 60 seconds
    /// per minute.
    pub fn from_lba(lba: u32) -> (r: Self)
        requires
            lba <= MAX_LBA,
        ensures
            r.minute == minute_of(lba),
            r.second == second_of(lba),
            r.frame == frame_of(lba),
            r.wf(),
    {
        let lba_offset = lba + 150;

        let frame = (lba_offset % 75) as u8;
        let second = ((lba_offset / 75) % 60) as u8;
        let minute = ((lba_offset / 75) / 60) as u8;

        Self { minute, second, frame }
    }

    /// Pack the three timecode fields as BCD bytes, in minute, second,
    /// frame order.
    pub fn to_bcd(&self) -> (r: [u8; 3])
        requires
            self.wf(),
        ensures
            r@ == seq![bcd_byte(self.minute), bcd_byte(self.second), bcd_byte(self.frame)],
    {
        let r = [
            Self::to_bcd_byte(self.minute),
            Self::to_bcd_byte(self.second),
            Self::to_bcd_byte(self.frame),
        ];
        proof {
            assert(r@ =~= seq![
                bcd_byte(self.minute),
                bcd_byte(self.second),
                bcd_byte(self.frame),
            ]);
        }
        r
    }

    fn to_bcd_byte(value: u8) -> (r: u8)
        requires
            value <= 99,
        ensures
            r == bcd_byte(value),
    {
        ((value / 10) << 4) | (value % 10)
    }
}

/// Packing a two-digit value as BCD and unpacking its nibbles gives the
/// value back: the encoding loses nothing.
pub proof fn lemma_bcd_round_trip(value: u8)
    by (bit_vector)
    requires
        value <= 99,
    ensures
        (bcd_byte(value) >> 4) * 10 + (bcd_byte(value) & 0x0f) == value,
{
}

/// The timecode derived from a valid logical block address survives the
/// BCD round trip: unpacking each header byte gives exactly the minute,
/// second and frame that division by 75 and 60 (after the 150-frame
/// offset) produces.
pub proof fn lemma_address_bcd_round_trip(lba: u32)
    requires
        lba <= MAX_LBA,
    ensures
        0 <= minute_of(lba) <= 99,
        0 <= second_of(lba) <= 59,
        0 <= frame_of(lba) <= 74,
        (bcd_byte(minute_of(lba) as u8) >> 4) * 10 + (bcd_byte(minute_of(lba) as u8) & 0x0f)
            == minute_of(lba),
        (bcd_byte(second_of(lba) as u8) >> 4) * 10 + (bcd_byte(second_of(lba) as u8) & 0x0f)
            == second_of(lba),
        (bcd_byte(frame_of(lba) as u8) >> 4) * 10 + (bcd_byte(frame_of(lba) as u8) & 0x0f)
            == frame_of(lba),
{
    lemma_bcd_round_trip(minute_of(lba) as u8);
    lemma_bcd_round_trip(second_of(lba) as u8);
    lemma_bcd_round_trip(frame_of(lba) as u8);
}

/// One physical sector in memory, field by field. The fields hold the
/// seven regions of the 2352-byte layout in order.
pub struct Mode1Sector {
    pub sync: Vec<u8>,
    pub header: Vec<u8>,
    pub user_data: Vec<u8>,
    pub edc: Vec<u8>,
    pub zero: Vec<u8>,
    pub ecc_p: Vec<u8>,
    pub ecc_q: Vec<u8>,
}

/// The seven fields of a sector laid out as one 2352-byte buffer.
pub open spec fn sector_bytes(s: Mode1Sector) -> Seq<u8> {
    s.sync@ + s.header@ + s.user_data@ + s.edc@ + s.zero@ + s.ecc_p@ + s.ecc_q@
}

impl Mode1Sector {
    /// Every field has the fixed length of its region of the layout.
    pub open spec fn wf(self) -> bool {
        &&& self.sync@.len() == 12
        &&& self.header@.len() == 4
        &&& self.user_data@.len() == 2048
        &&& self.edc@.len() == 4
        &&& self.zero@.len() == 8
        &&& self.ecc_p@.len() == 172
        &&& self.ecc_q@.len() == 104
    }

    /// Assemble a sector from its address and one block of user data: the
    /// fixed sync pattern, the BCD timecode with the Mode 1 mode byte, the
    /// data copied verbatim, and zeroed EDC and parity fields. A block of
    /// any other size is rejected and nothing is built.
    pub fn new(lba: u32, data: &[u8]) -> (r: Result<Self, ConvertError>)
        requires
            lba <= MAX_LBA,
        ensures
            data@.len() == 2048 <==> r is Ok,
            r matches Ok(s) ==> {
                &&& s.wf()
                &&& s.sync@ == spec_sync_pattern()
                &&& s.header@ == header_bytes(lba)
                &&& s.user_data@ == data@
                &&& s.edc@ == zero_seq(4)
                &&& s.zero@ == zero_seq(8)
                &&& s.ecc_p@ == zero_seq(172)
                &&& s.ecc_q@ == zero_seq(104)
                &&& sector_bytes(s) == initial_sector_bytes(lba, data@)
            },
            r matches Err(e) ==> e == (ConvertError::SizeMismatch {
                expected: 2048,
                got: data@.len() as usize,
            }),
    {
        if data.len() != ISO_SECTOR_SIZE {
            return Err(ConvertError::SizeMismatch { expected: ISO_SECTOR_SIZE, got: data.len() });
        }

        let address = SectorAddress::from_lba(lba);
        let bcd_address = address.to_bcd();

        let sync = sync_pattern();

        let mut header: Vec<u8> = Vec::new();
        header.push(bcd_address[0]);
        header.push(bcd_address[1]);
        header.push(bcd_address[2]);
        header.push(0x01);

        let mut user_data: Vec<u8> = Vec::new();
        let mut i: usize = 0;
        while i < data.len()
            invariant
                i <= data@.len(),
                user_data@ == data@.take(i as int),
            decreases data@.len() - i,
        {
            user_data.push(data[i]);
            proof {
                assert(user_data@ =~= data@.take(i + 1));
            }
            i = i + 1;
        }

        let sector = Self {
            sync,
            header,
            user_data,
            edc: zero_vec(4),
            zero: zero_vec(8),
            ecc_p: zero_vec(172),
            ecc_q: zero_vec(104),
        };

        proof {
            assert(sector.header@ =~= header_bytes(lba));
            assert(sector.user_data@ =~= data@);
            assert(sector_bytes(sector) =~= initial_sector_bytes(lba, data@));
        }

        Ok(sector)
    }

    /// Run the whole encoding pass over this sector: serialize it, fill
    /// EDC, then P parity, then Q parity (EDC must come first since the
    /// parity passes cover the EDC field), and copy the three computed
    /// fields back. Everything else is left untouched.
    pub fn calculate_edc_ecc(&mut self)
        requires
            old(self).wf(),
        ensures
            final(self).wf(),
            final(self).sync@ == old(self).sync@,
            final(self).header@ == old(self).header@,
            final(self).user_data@ == old(self).user_data@,
            final(self).zero@ == old(self).zero@,
            final(self).edc@ == encoded(sector_bytes(*old(self))).subrange(2064, 2068),
            final(self).ecc_p@ == encoded(sector_bytes(*old(self))).subrange(2076, 2248),
            final(self).ecc_q@ == encoded(sector_bytes(*old(self))).subrange(2248, 2352),
            sector_bytes(*final(self)) == encoded(sector_bytes(*old(self))),
    {
        let tables = Tables::new();
        self.calculate_edc_ecc_with(&tables)
    }

    /// The encoding pass through prebuilt tables.
    pub fn calculate_edc_ecc_with(&mut self, tables: &Tables)
        requires
            old(self).wf(),
            tables.wf(),
        ensures
            final(self).wf(),
            final(self).sync@ == old(self).sync@,
            final(self).header@ == old(self).header@,
            final(self).user_data@ == old(self).user_data@,
            final(self).zero@ == old(self).zero@,
            final(self).edc@ == encoded(sector_bytes(*old(self))).subrange(2064, 2068),
            final(self).ecc_p@ == encoded(sector_bytes(*old(self))).subrange(2076, 2248),
            final(self).ecc_q@ == encoded(sector_bytes(*old(self))).subrange(2248, 2352),
            sector_bytes(*final(self)) == encoded(sector_bytes(*old(self))),
    {
        let ghost orig = *self;
        let ghost ser = sector_bytes(orig);

        let mut sector = zero_vec(RAW_SECTOR_SIZE);
        self.to_bytes(&mut sector);
        proof {
            assert(zero_seq(2352).skip(2352) =~= Seq::<u8>::empty());
            assert(sector@ =~= ser);
        }

        calc_mode1_edc_with(tables, &mut sector);
        calc_p_parity_with(tables, &mut sector);
        calc_q_parity_with(tables, &mut sector);
        proof {
            assert(sector@ == encoded(ser));
            lemma_encoded_points(ser);
        }

        self.edc = copy_range(&sector, 2064, 2068);
        self.ecc_p = copy_range(&sector, 2076, 2248);
        self.ecc_q = copy_range(&sector, 2248, 2352);

        proof {
            let enc = encoded(ser);
            assert forall|j: int| 0 <= j < 2352 implies sector_bytes(*self)[j] == enc[j] by {
                if j < 12 {
                    assert(sector_bytes(*self)[j] == orig.sync@[j]);
                    assert(ser[j] == orig.sync@[j]);
                } else if j < 16 {
                    assert(sector_bytes(*self)[j] == orig.header@[j - 12]);
                    assert(ser[j] == orig.header@[j - 12]);
                } else if j < 2064 {
                    assert(sector_bytes(*self)[j] == orig.user_data@[j - 16]);
                    assert(ser[j] == orig.user_data@[j - 16]);
                } else if j < 2068 {
                    assert(sector_bytes(*self)[j] == self.edc@[j - 2064]);
                    assert(self.edc@[j - 2064] == enc[j]);
                } else if j < 2076 {
                    assert(sector_bytes(*self)[j] == orig.zero@[j - 2068]);
                    assert(ser[j] == orig.zero@[j - 2068]);
                } else if j < 2248 {
                    assert(sector_bytes(*self)[j] == self.ecc_p@[j - 2076]);
                    assert(self.ecc_p@[j - 2076] == enc[j]);
                } else {
                    assert(sector_bytes(*self)[j] == self.ecc_q@[j - 2248]);
                    assert(self.ecc_q@[j - 2248] == enc[j]);
                }
            }
            assert(sector_bytes(*self) =~= encoded(ser));
        }
    }

    /// Serialize the seven fields into the first 2352 bytes of the given
    /// buffer, leaving anything beyond them unchanged. A buffer shorter
    /// than one raw sector is left entirely untouched.
    pub fn to_bytes(&self, buffer: &mut Vec<u8>)
        requires
            self.wf(),
        ensures
            old(buffer)@.len() < 2352 ==> final(buffer)@ == old(buffer)@,
            old(buffer)@.len() >= 2352 ==> final(buffer)@ == sector_bytes(*self) + old(
                buffer,
            )@.skip(2352),
    {
        if buffer.len() < RAW_SECTOR_SIZE {
            return ;
        }

        let mut serialized: Vec<u8> = Vec::new();
        append_vec(&mut serialized, &self.sync);
        append_vec(&mut serialized, &self.header);
        append_vec(&mut serialized, &self.user_data);
        append_vec(&mut serialized, &self.edc);
        append_vec(&mut serialized, &self.zero);
        append_vec(&mut serialized, &self.ecc_p);
        append_vec(&mut serialized, &self.ecc_q);
        proof {
            assert(serialized@ == sector_bytes(*self));
        }

        copy_into(buffer, 0, &serialized);
        proof {
            assert(buffer@ =~= sector_bytes(*self) + old(buffer)@.skip(2352));
        }
    }
}

/// The fixed 12-byte synchronization pattern as a fresh buffer.
pub fn sync_pattern() -> (v: Vec<u8>)
    ensures
        v@ == spec_sync_pattern(),
{
    let mut v: Vec<u8> = Vec::new();
    v.push(0x00);
    v.push(0xFF);
    v.push(0xFF);
    v.push(0xFF);
    v.push(0xFF);
    v.push(0xFF);
    v.push(0xFF);
    v.push(0xFF);
    v.push(0xFF);
    v.push(0xFF);
    v.push(0xFF);
    v.push(0x00);
    proof {
        assert(v@ =~= spec_sync_pattern());
    }
    v
}

/// A fresh all-zero buffer of the given length.
fn zero_vec(n: usize) -> (v: Vec<u8>)
    ensures
        v@ == zero_seq(n as nat),
{
    let mut v: Vec<u8> = Vec::new();
    let mut i: usize = 0;
    while i < n
        invariant
            i <= n,
            v@.len() == i,
            forall|j: int| 0 <= j < i ==> v@[j] == 0u8,
        decreases n - i,
    {
        v.push(0);
        i = i + 1;
    }
    proof {
        assert(v@ =~= zero_seq(n as nat));
    }
    v
}

/// Append a copy of `src` to `dst`.
fn append_vec(dst: &mut Vec<u8>, src: &Vec<u8>)
    ensures
        final(dst)@ == old(dst)@ + src@,
{
    let mut i: usize = 0;
    while i < src.len()
        invariant
            i <= src@.len(),
            dst@ == old(dst)@ + src@.take(i as int),
        decreases src@.len() - i,
    {
        dst.push(src[i]);
        proof {
            assert(old(dst)@ + src@.take(i as int) + seq![src@[i as int]] =~= old(dst)@
                + src@.take(i + 1));
        }
        i = i + 1;
    }
    proof {
        assert(old(dst)@ + src@.take(src@.len() as int) =~= old(dst)@ + src@);
    }
}

/// Copy all of `src` into `buffer` starting at `offset`, leaving every
/// other byte unchanged.
fn copy_into(buffer: &mut Vec<u8>, offset: usize, src: &Vec<u8>)
    requires
        offset + src@.len() <= old(buffer)@.len(),
    ensures
        final(buffer)@.len() == old(buffer)@.len(),
        forall|j: int|
            0 <= j < old(buffer)@.len() && !(offset <= j < offset + src@.len())
                ==> final(buffer)@[j] == old(buffer)@[j],
        forall|j: int| 0 <= j < src@.len() ==> final(buffer)@[offset + j] == src@[j],
{
    proof {
        assert(old(buffer)@.len() == buffer.len());
    }
    let mut i: usize = 0;
    while i < src.len()
        invariant
            i <= src@.len(),
            offset + src@.len() <= old(buffer)@.len(),
            old(buffer)@.len() <= usize::MAX,
            buffer@.len() == old(buffer)@.len(),
            forall|j: int|
                0 <= j < old(buffer)@.len() && !(offset <= j < offset + i) ==> buffer@[j] == old(
                    buffer,
                )@[j],
            forall|j: int| 0 <= j < i ==> buffer@[offset + j] == src@[j],
        decreases src@.len() - i,
    {
        buffer.set(offset + i, src[i]);
        i = i + 1;
    }
}

/// Copy the bytes of `buf` between `start` and `end` into a fresh buffer.
fn copy_range(buf: &Vec<u8>, start: usize, end: usize) -> (v: Vec<u8>)
    requires
        start <= end <= buf@.len(),
    ensures
        v@ == buf@.subrange(start as int, end as int),
{
    let mut v: Vec<u8> = Vec::new();
    let mut i: usize = start;
    while i < end
        invariant
            start <= i <= end,
            end <= buf@.len(),
            v@ == buf@.subrange(start as int, i as int),
        decreases end - i,
    {
        v.push(buf[i]);
        proof {
            assert(v@ =~= buf@.subrange(start as int, i + 1));
        }
        i = i + 1;
    }
    v
}

/// Encode one block of user data as a raw Mode 1 sector: assemble it,
/// run the EDC and parity passes, and serialize the result. A block of
/// any size other than 2048 bytes is rejected.
pub fn convert_iso_to_raw(lba: u32, iso_data: &[u8]) -> (r: Result<Vec<u8>, ConvertError>)
    requires
        lba <= MAX_LBA,
    ensures
        iso_data@.len() == 2048 <==> r is Ok,
        r matches Ok(raw) ==> raw@.len() == 2352 && raw@ == encoded_sector(lba, iso_data@),
        r matches Err(e) ==> e == (ConvertError::SizeMismatch {
            expected: 2048,
            got: iso_data@.len() as usize,
        }),
{
    let tables = Tables::new();
    convert_iso_to_raw_with(&tables, lba, iso_data)
}

/// Encode one block of user data through prebuilt tables.
pub fn convert_iso_to_raw_with(tables: &Tables, lba: u32, iso_data: &[u8]) -> (r: Result<
    Vec<u8>,
    ConvertError,
>)
    requires
        tables.wf(),
        lba <= MAX_LBA,
    ensures
        iso_data@.len() == 2048 <==> r is Ok,
        r matches Ok(raw) ==> raw@.len() == 2352 && raw@ == encoded_sector(lba, iso_data@),
        r matches Err(e) ==> e == (ConvertError::SizeMismatch {
            expected: 2048,
            got: iso_data@.len() as usize,
        }),
{
    let mut sector = match Mode1Sector::new(lba, iso_data) {
        Ok(sector) => sector,
        Err(e) => {
            return Err(e);
        },
    };

    sector.calculate_edc_ecc_with(tables);

    let mut raw_data = zero_vec(RAW_SECTOR_SIZE);
    sector.to_bytes(&mut raw_data);
    proof {
        assert(zero_seq(2352).skip(2352) =~= Seq::<u8>::empty());
        assert(raw_data@ =~= sector_bytes(sector));
    }

    Ok(raw_data)
}

/// Block `k` of an image: the 2048 input bytes of the sector at logical
/// block address `k`.
pub open spec fn block_slice(s: Seq<u8>, k: int) -> Seq<u8> {
    s.subrange(k * 2048, (k + 1) * 2048)
}

/// Sector `k` of an output stream: the 2352 bytes written for logical
/// block address `k`.
pub open spec fn sector_slice(s: Seq<u8>, k: int) -> Seq<u8> {
    s.subrange(k * 2352, (k + 1) * 2352)
}

/// A whole image is valid only when it splits exactly into 2048-byte
/// blocks; anything else is rejected before any sector is encoded.
pub fn convert_image(iso_data: &[u8]) -> (r: Result<Vec<u8>, ConvertError>)
    requires
        iso_data@.len() <= 2048 * (MAX_LBA + 1),
    ensures
        iso_data@.len() % 2048 == 0 <==> r is Ok,
        r matches Ok(out) ==> {
            &&& out@.len() == (iso_data@.len() / 2048) * 2352
            &&& forall|k: int|
                0 <= k < iso_data@.len() / 2048 ==> #[trigger] sector_slice(out@, k)
                    == encoded_sector(k as u32, block_slice(iso_data@, k))
        },
        r matches Err(e) ==> e == (ConvertError::SizeMismatch {
            expected: 2048,
            got: iso_data@.len() as usize,
        }),
{
    let n = iso_data.len();
    if n % 2048 != 0 {
        return Err(ConvertError::SizeMismatch { expected: ISO_SECTOR_SIZE, got: n });
    }

    let tables = Tables::new();
    let total = n / 2048;
    let mut out: Vec<u8> = Vec::new();

    let mut k: usize = 0;
    while k < total
        invariant
            k <= total,
            total == iso_data@.len() / 2048,
            n == iso_data@.len(),
            n % 2048 == 0,
            n <= 2048 * (MAX_LBA + 1),
            tables.wf(),
            out@.len() == k * 2352,
            forall|t: int|
                0 <= t < k ==> #[trigger] sector_slice(out@, t) == encoded_sector(
                    t as u32,
                    block_slice(iso_data@, t),
                ),
        decreases total - k,
    {
        let ghost out_prev = out@;

        let block = &iso_data[k * 2048..k * 2048 + 2048];
        let mut raw = match convert_iso_to_raw_with(&tables, k as u32, block) {
            Ok(raw) => raw,
            Err(e) => {
                proof {
                    assert(false);
                }
                return Err(e);
            },
        };
        proof {
            assert(block@ =~= block_slice(iso_data@, k as int));
            assert(raw@ == encoded_sector(k as u32, block_slice(iso_data@, k as int)));
        }

        out.append(&mut raw);

        proof {
            assert forall|t: int|
                0 <= t < k + 1 implies #[trigger] sector_slice(out@, t) == encoded_sector(
                t as u32,
                block_slice(iso_data@, t),
            ) by {
                if t < k {
                    assert(sector_slice(out@, t) =~= sector_slice(out_prev, t));
                } else {
                    assert(sector_slice(out@, t) =~= encoded_sector(
                        t as u32,
                        block_slice(iso_data@, t),
                    ));
                }
            }
        }
        k = k + 1;
    }

    Ok(out)
}

/// The per-sector contract pins the whole output stream: any two outputs
/// whose sectors each hold the encoding of their own block are identical,
/// byte for byte. Completion order and worker count can therefore never
/// change what is written, only when it is computed.
pub proof fn lemma_sector_stream_unique(iso: Seq<u8>, out1: Seq<u8>, out2: Seq<u8>)
    requires
        out1.len() == (iso.len() / 2048) * 2352,
        out2.len() == (iso.len() / 2048) * 2352,
        forall|k: int|
            0 <= k < iso.len() / 2048 ==> #[trigger] sector_slice(out1, k) == encoded_sector(
                k as u32,
                block_slice(iso, k),
            ),
        forall|k: int|
            0 <= k < iso.len() / 2048 ==> #[trigger] sector_slice(out2, k) == encoded_sector(
                k as u32,
                block_slice(iso, k),
            ),
    ensures
        out1 == out2,
{
    let n = iso.len() / 2048;
    assert forall|j: int| 0 <= j < out1.len() implies out1[j] == out2[j] by {
        let k = j / 2352;
        let r = j % 2352;
        lemma_fundamental_div_mod(j, 2352);
        assert(j == 2352 * k + r);
        assert(0 <= k < n);
        assert(sector_slice(out1, k)[r] == out1[j]);
        assert(sector_slice(out2, k)[r] == out2[j]);
    }
    assert(out1 =~= out2);
}

/// The fixed layout of every encoded sector: the sync pattern opens it,
/// the mode byte at offset 15 is 1, and the user data sits verbatim at
/// offsets 16..2064.
pub proof fn lemma_encoded_sector_layout(lba: u32, data: Seq<u8>)
    requires
        lba <= MAX_LBA,
        data.len() == 2048,
    ensures
        encoded_sector(lba, data).len() == 2352,
        encoded_sector(lba, data).subrange(0, 12) == spec_sync_pattern(),
        encoded_sector(lba, data)[12] == bcd_byte(minute_of(lba) as u8),
        encoded_sector(lba, data)[13] == bcd_byte(second_of(lba) as u8),
        encoded_sector(lba, data)[14] == bcd_byte(frame_of(lba) as u8),
        encoded_sector(lba, data)[15] == 0x01u8,
        encoded_sector(lba, data).subrange(16, 2064) == data,
{
    let init = initial_sector_bytes(lba, data);
    assert(init.len() == 2352);
    lemma_encoded_points(init);
    let enc = encoded_sector(lba, data);
    assert forall|j: int| 0 <= j < 2064 implies enc[j] == init[j] by {}
    assert forall|j: int| 0 <= j < 12 implies init[j] == spec_sync_pattern()[j] by {}
    assert forall|j: int| 16 <= j < 2064 implies init[j] == data[j - 16] by {}
    assert(enc.subrange(0, 12) =~= spec_sync_pattern());
    assert(enc.subrange(16, 2064) =~= data);
}

} // verus!

