//! The multi-platform bundle: binaries of other platforms carried behind an executable image.
//!
//! ```text
//! [ executable image ]
//! [ deflate-compressed binary of platform 0 ]
//! [ deflate-compressed binary of platform 1 ]
//! ...
//! [ index JSON ]
//! [ footer: index offset (u64), index length (u64), format (u32), magic; little-endian ]
//! ```

use vstd::bytes::{
    spec_u32_from_le_bytes, spec_u32_to_le_bytes, spec_u64_from_le_bytes, spec_u64_to_le_bytes,
    u32_from_le_bytes, u32_to_le_bytes, u64_from_le_bytes, u64_to_le_bytes,
};
use vstd::prelude::*;
use vstd::slice::{slice_subrange, slice_to_vec};

use crate::text;
use crate::text::{decimal, lex_lt};

verus! {

/// The format of the bundles written here; another format reads as no bundle.
pub const FORMAT_VERSION: u32 = 1;

/// The length of the footer.
pub const FOOTER_LEN: u64 = 28;

/// The deflate level of the carried binaries.
pub const COMPRESSION_LEVEL: u8 = 6;

/// The eight bytes at the very end of a bundle: `HERDRBND`.
pub open spec fn magic() -> Seq<u8> {
    seq![0x48u8, 0x45, 0x52, 0x44, 0x52, 0x42, 0x4e, 0x44]
}

/// The binary of one platform inside a bundle.
#[derive(Debug, PartialEq, Eq)]
pub struct BundleEntry {
    pub os: String,
    pub arch: String,
    /// Where the compressed bytes begin in the file.
    pub offset: u64,
    pub compressed_len: u64,
    pub uncompressed_len: u64,
    /// CRC-32 of the uncompressed bytes.
    pub crc32: u32,
}

/// What a bundle carries.
#[derive(Debug, PartialEq, Eq)]
pub struct BundleIndex {
    pub format: u32,
    pub herdr_version: String,
    pub build_commit: Option<String>,
    /// The length of the executable image, where the payload starts.
    pub image_len: u64,
    pub entries: Vec<BundleEntry>,
}

/// The binary of one platform, to be packed.
#[derive(Debug)]
pub struct PackInput {
    pub os: String,
    pub arch: String,
    pub binary: Vec<u8>,
}

/// Why a carried binary could not be taken out.
#[derive(Debug, PartialEq, Eq)]
pub enum ExtractError {
    /// The file ends before the compressed bytes do.
    Truncated,
    /// The compressed bytes are no deflate stream.
    Inflate { reason: String },
    Length { expected: u64, got: u64 },
    Checksum,
}

/// An entry as a mathematical value.
#[verifier::ext_equal]
pub struct EntryView {
    pub os: Seq<char>,
    pub arch: Seq<char>,
    pub offset: nat,
    pub compressed_len: nat,
    pub uncompressed_len: nat,
    pub crc32: u32,
}

/// An index as a mathematical value.
#[verifier::ext_equal]
pub struct IndexView {
    pub format: u32,
    pub herdr_version: Seq<char>,
    pub build_commit: Option<Seq<char>>,
    pub image_len: nat,
    pub entries: Seq<EntryView>,
}

/// A binary to be packed, as a mathematical value.
#[verifier::ext_equal]
pub struct InputView {
    pub os: Seq<char>,
    pub arch: Seq<char>,
    pub binary: Seq<u8>,
}

#[verifier::ext_equal]
pub enum ExtractErrorView {
    Truncated,
    Inflate { reason: Seq<char> },
    Length { expected: nat, got: nat },
    Checksum,
}

impl DeepView for BundleEntry {
    type V = EntryView;

    open spec fn deep_view(&self) -> EntryView {
        EntryView {
            os: self.os@,
            arch: self.arch@,
            offset: self.offset as nat,
            compressed_len: self.compressed_len as nat,
            uncompressed_len: self.uncompressed_len as nat,
            crc32: self.crc32,
        }
    }
}

impl DeepView for BundleIndex {
    type V = IndexView;

    open spec fn deep_view(&self) -> IndexView {
        IndexView {
            format: self.format,
            herdr_version: self.herdr_version@,
            build_commit: self.build_commit.deep_view(),
            image_len: self.image_len as nat,
            entries: self.entries.deep_view(),
        }
    }
}

impl DeepView for PackInput {
    type V = InputView;

    open spec fn deep_view(&self) -> InputView {
        InputView { os: self.os@, arch: self.arch@, binary: self.binary@ }
    }
}

impl DeepView for ExtractError {
    type V = ExtractErrorView;

    open spec fn deep_view(&self) -> ExtractErrorView {
        match self {
            ExtractError::Truncated => ExtractErrorView::Truncated,
            ExtractError::Inflate { reason } => ExtractErrorView::Inflate { reason: reason@ },
            ExtractError::Length { expected, got } => ExtractErrorView::Length {
                expected: *expected as nat,
                got: *got as nat,
            },
            ExtractError::Checksum => ExtractErrorView::Checksum,
        }
    }
}

/// One shift of the CRC register, with the polynomial fed back where the lowest bit falls out.
pub open spec fn crc_shift(crc: u32) -> u32 {
    if crc & 1 == 1 {
        (crc >> 1) ^ 0xEDB8_8320
    } else {
        crc >> 1
    }
}

/// `n` shifts of the CRC register.
pub open spec fn crc_shifts(crc: u32, n: nat) -> u32
    decreases n,
{
    if n == 0 {
        crc
    } else {
        crc_shift(crc_shifts(crc, (n - 1) as nat))
    }
}

/// The CRC register after `data`.
pub open spec fn crc_register(data: Seq<u8>) -> u32
    decreases data.len(),
{
    if data.len() == 0 {
        0xFFFF_FFFF
    } else {
        crc_shifts(crc_register(data.drop_last()) ^ (data.last() as u32), 8)
    }
}

/// The IEEE CRC-32 of `data`.
pub open spec fn crc32_of(data: Seq<u8>) -> u32 {
    !crc_register(data)
}

/// The IEEE CRC-32 of `data` (reflected, polynomial `0xEDB88320`).
pub fn crc32(data: &[u8]) -> (r: u32)
    ensures
        r == crc32_of(data@),
{
    let mut crc: u32 = 0xFFFF_FFFF;
    let mut i: usize = 0;
    while i < data.len()
        invariant
            i <= data@.len(),
            crc == crc_register(data@.take(i as int)),
        decreases data@.len() - i,
    {
        let ghost before = crc;
        crc = crc ^ (data[i] as u32);
        let ghost mixed = crc;
        let mut n: u32 = 0;
        while n < 8
            invariant
                n <= 8,
                crc == crc_shifts(mixed, n as nat),
            decreases 8 - n,
        {
            crc = if crc & 1 == 1 {
                (crc >> 1) ^ 0xEDB8_8320
            } else {
                crc >> 1
            };
            n = n + 1;
        }
        assert(data@.take(i + 1).drop_last() =~= data@.take(i as int));
        i = i + 1;
    }
    assert(data@.take(i as int) =~= data@);
    !crc
}

impl BundleEntry {
    /// The platform as one word: `linux-x86_64`.
    pub open spec fn asset_key_spec(entry: EntryView) -> Seq<char> {
        entry.os + "-"@ + entry.arch
    }

    pub fn asset_key(&self) -> (r: String)
        ensures
            r@ == BundleEntry::asset_key_spec(self.deep_view()),
    {
        let mut key: String = self.os.clone();
        key.append("-");
        key.append(self.arch.as_str());
        key
    }
}

impl Clone for BundleEntry {
    fn clone(&self) -> (r: Self)
        ensures
            r == *self,
    {
        BundleEntry {
            os: self.os.clone(),
            arch: self.arch.clone(),
            offset: self.offset,
            compressed_len: self.compressed_len,
            uncompressed_len: self.uncompressed_len,
            crc32: self.crc32,
        }
    }
}

/// Whether an entry carries the binary of this platform.
pub open spec fn is_for(entry: EntryView, os: Seq<char>, arch: Seq<char>) -> bool {
    entry.os == os && entry.arch == arch
}

impl BundleIndex {
    /// The first carried binary for a platform.
    pub fn entry_for(&self, os: &str, arch: &str) -> (r: Option<&BundleEntry>)
        ensures
            match r {
                Some(entry) => exists|i: int|
                    0 <= i < self.entries@.len() && *entry == self.entries@[i] && is_for(
                        #[trigger] self.deep_view().entries[i],
                        os@,
                        arch@,
                    ) && forall|j: int|
                        0 <= j < i ==> !is_for(
                            #[trigger] self.deep_view().entries[j],
                            os@,
                            arch@,
                        ),
                None => forall|i: int|
                    0 <= i < self.entries@.len() ==> !is_for(
                        #[trigger] self.deep_view().entries[i],
                        os@,
                        arch@,
                    ),
            },
    {
        let mut i: usize = 0;
        while i < self.entries.len()
            invariant
                i <= self.entries@.len(),
                forall|j: int|
                    0 <= j < i ==> !is_for(#[trigger] self.deep_view().entries[j], os@, arch@),
            decreases self.entries@.len() - i,
        {
            let entry: &BundleEntry = &self.entries[i];
            assert(self.deep_view().entries[i as int] == entry.deep_view());
            if text::same(entry.os.as_str(), os) && text::same(entry.arch.as_str(), arch) {
                return Some(entry);
            }
            i = i + 1;
        }
        None
    }
}

/// The platform of a build in the words of a bundle, `None` where no bundle carries it.
pub fn local_os_arch(os: &str, arch: &str) -> (r: Option<(&'static str, &'static str)>)
    ensures
        match r {
            Some((o, a)) => o@ == os@ && a@ == arch@,
            None => true,
        },
        r is Some <==> (os@ == "linux"@ || os@ == "macos"@) && (arch@ == "x86_64"@ || arch@
            == "aarch64"@),
{
    let o: &'static str = if text::same(os, "linux") {
        "linux"
    } else if text::same(os, "macos") {
        "macos"
    } else {
        return None;
    };
    let a: &'static str = if text::same(arch, "x86_64") {
        "x86_64"
    } else if text::same(arch, "aarch64") {
        "aarch64"
    } else {
        return None;
    };
    Some((o, a))
}

/// The deflate stream of `data` at a level.
pub uninterp spec fn deflated(data: Seq<u8>, level: u8) -> Seq<u8>;

/// The data of a deflate stream, or why there is none.
pub uninterp spec fn inflated(stream: Seq<u8>) -> Result<Seq<u8>, Seq<char>>;

/// `miniz_oxide::deflate::compress_to_vec`, which makes a raw deflate stream. Its result is named
/// `deflated`; inflating the stream gives the data back.
#[verifier::external_body]
fn compress(data: &[u8], level: u8) -> (r: Vec<u8>)
    requires
        level <= 10,
    ensures
        r@ == deflated(data@, level),
        inflated(r@) is Ok && inflated(r@)->Ok_0 == data@,
{
    miniz_oxide::deflate::compress_to_vec(data, level)
}

/// `miniz_oxide::inflate::decompress_to_vec`, which reads a raw deflate stream. Its result, with
/// the error in its debug form, is named `inflated`.
#[verifier::external_body]
fn decompress(stream: &[u8]) -> (r: Result<Vec<u8>, String>)
    ensures
        match r {
            Ok(data) => inflated(stream@) is Ok && inflated(stream@)->Ok_0 == data@,
            Err(reason) => inflated(stream@) is Err && inflated(stream@)->Err_0 == reason@,
        },
{
    miniz_oxide::inflate::decompress_to_vec(stream).map_err(|err| format!("{err:?}"))
}

/// The footer of a bundle whose index begins at `offset` and is `len` bytes long.
pub open spec fn footer_of(offset: u64, len: u64) -> Seq<u8> {
    spec_u64_to_le_bytes(offset) + spec_u64_to_le_bytes(len) + spec_u32_to_le_bytes(FORMAT_VERSION)
        + magic()
}

/// Where a file of this length, with this footer, holds its index: offset and length. `None`
/// where the footer is not that of a bundle in the current format.
pub open spec fn location_of(file_len: nat, footer: Seq<u8>) -> Option<(nat, nat)> {
    let offset = spec_u64_from_le_bytes(footer.subrange(0, 8)) as nat;
    let len = spec_u64_from_le_bytes(footer.subrange(8, 16)) as nat;
    if footer.subrange(20, 28) == magic() && spec_u32_from_le_bytes(footer.subrange(16, 20))
        == FORMAT_VERSION && offset + len + FOOTER_LEN <= file_len {
        Some((offset, len))
    } else {
        None
    }
}

/// The index bytes that a file carries.
pub open spec fn index_bytes_of(file: Seq<u8>) -> Option<Seq<u8>> {
    if file.len() < FOOTER_LEN {
        None
    } else {
        match location_of(file.len(), file.skip(file.len() - FOOTER_LEN)) {
            Some((offset, len)) => Some(file.subrange(offset as int, (offset + len) as int)),
            None => None,
        }
    }
}

/// The bundle with this payload and this index.
pub open spec fn sealed(payload: Seq<u8>, index: Seq<u8>) -> Seq<u8> {
    payload + index + footer_of(payload.len() as u64, index.len() as u64)
}

/// Whether the bytes are the magic of a bundle.
fn is_magic(bytes: &[u8]) -> (r: bool)
    requires
        bytes@.len() == 8,
    ensures
        r == (bytes@ == magic()),
{
    let r: bool = bytes[0] == 0x48 && bytes[1] == 0x45 && bytes[2] == 0x52 && bytes[3] == 0x44
        && bytes[4] == 0x52 && bytes[5] == 0x42 && bytes[6] == 0x4e && bytes[7] == 0x44;
    proof {
        if r {
            assert(bytes@ =~= magic());
        }
    }
    r
}

/// Where a file of this length, whose last bytes are `footer`, holds its index.
pub fn index_location(file_len: u64, footer: &[u8]) -> (r: Option<(u64, u64)>)
    requires
        file_len >= FOOTER_LEN,
        footer@.len() == FOOTER_LEN,
    ensures
        match r {
            Some((offset, len)) => location_of(file_len as nat, footer@) == Some(
                (offset as nat, len as nat),
            ),
            None => location_of(file_len as nat, footer@) is None,
        },
{
    if !is_magic(slice_subrange(footer, 20, 28)) {
        return None;
    }
    let format: u32 = u32_from_le_bytes(slice_subrange(footer, 16, 20));
    if format != FORMAT_VERSION {
        return None;
    }
    let offset: u64 = u64_from_le_bytes(slice_subrange(footer, 0, 8));
    let len: u64 = u64_from_le_bytes(slice_subrange(footer, 8, 16));
    if offset > file_len - FOOTER_LEN || len > file_len - FOOTER_LEN - offset {
        return None;
    }
    Some((offset, len))
}

/// The index bytes that a file carries, `None` where it carries no bundle in the current format.
pub fn read_index(file: &[u8]) -> (r: Option<Vec<u8>>)
    ensures
        match r {
            Some(index) => index_bytes_of(file@) == Some(index@),
            None => index_bytes_of(file@) is None,
        },
{
    let n: usize = file.len();
    if n < 28 {
        return None;
    }
    let footer: &[u8] = slice_subrange(file, n - 28, n);
    assert(footer@ =~= file@.skip(file@.len() - FOOTER_LEN));
    match index_location(n as u64, footer) {
        Some((offset, len)) => {
            let from: usize = offset as usize;
            let to: usize = from + len as usize;
            Some(slice_to_vec(slice_subrange(file, from, to)))
        },
        None => None,
    }
}

/// `bytes` followed by `more`.
fn append_bytes(bytes: &mut Vec<u8>, more: &[u8])
    ensures
        final(bytes)@ == old(bytes)@ + more@,
{
    bytes.extend_from_slice(more);
    assert(bytes@ =~= old(bytes)@ + more@);
}

/// The bundle with this payload and this index.
pub fn seal(payload: Vec<u8>, index: &[u8]) -> (r: Vec<u8>)
    ensures
        r@ == sealed(payload@, index@),
{
    let offset: u64 = payload.len() as u64;
    let mut output: Vec<u8> = payload;
    append_bytes(&mut output, index);
    append_bytes(&mut output, u64_to_le_bytes(offset).as_slice());
    append_bytes(&mut output, u64_to_le_bytes(index.len() as u64).as_slice());
    append_bytes(&mut output, u32_to_le_bytes(FORMAT_VERSION).as_slice());
    let mark: Vec<u8> = vec![0x48, 0x45, 0x52, 0x44, 0x52, 0x42, 0x4e, 0x44];
    assert(mark@ =~= magic());
    append_bytes(&mut output, mark.as_slice());
    assert(output@ =~= sealed(payload@, index@));
    output
}

/// A sealed bundle reads back the index it was sealed with.
pub proof fn law_seal_then_read_index(payload: Seq<u8>, index: Seq<u8>)
    requires
        payload.len() + index.len() + FOOTER_LEN <= u64::MAX,
    ensures
        index_bytes_of(sealed(payload, index)) == Some(index),
{
    vstd::bytes::lemma_auto_spec_u64_to_from_le_bytes();
    vstd::bytes::lemma_auto_spec_u32_to_from_le_bytes();
    let file = sealed(payload, index);
    let offset = payload.len() as u64;
    let len = index.len() as u64;
    let footer = footer_of(offset, len);
    let a = spec_u64_to_le_bytes(offset);
    let b = spec_u64_to_le_bytes(len);
    let c = spec_u32_to_le_bytes(FORMAT_VERSION);
    assert(footer.len() == 28);
    assert(file.len() == payload.len() + index.len() + 28);
    assert(file.skip(file.len() - FOOTER_LEN) =~= footer);
    assert(footer.subrange(0, 8) =~= a);
    assert(footer.subrange(8, 16) =~= b);
    assert(footer.subrange(16, 20) =~= c);
    assert(footer.subrange(20, 28) =~= magic());
    assert(file.subrange(payload.len() as int, (payload.len() + index.len()) as int) =~= index);
}

/// A file whose footer names another format carries no bundle.
pub proof fn law_other_format_reads_as_none(file: Seq<u8>)
    requires
        file.len() >= FOOTER_LEN,
        spec_u32_from_le_bytes(file.skip(file.len() - FOOTER_LEN).subrange(16, 20))
            != FORMAT_VERSION,
    ensures
        index_bytes_of(file) is None,
{
}

/// A file that does not end in the magic carries no bundle.
pub proof fn law_plain_file_reads_as_none(file: Seq<u8>)
    requires
        !magic().is_suffix_of(file),
    ensures
        index_bytes_of(file) is None,
{
    if file.len() >= FOOTER_LEN {
        let footer = file.skip(file.len() - FOOTER_LEN);
        assert(footer.subrange(20, 28) =~= file.subrange(file.len() - 8, file.len() as int));
    }
}

/// The executable image of a carrier: all of it, or its first `image_len` bytes where it carries
/// a bundle.
pub open spec fn image_of(carrier: Seq<u8>, image_len: Option<u64>) -> Seq<u8> {
    match image_len {
        Some(n) => if n < carrier.len() {
            carrier.take(n as int)
        } else {
            carrier
        },
        None => carrier,
    }
}

/// The executable image of a carrier. `image_len` is that of the index it carries, if any.
pub fn carrier_image_bytes(carrier: Vec<u8>, image_len: Option<u64>) -> (r: Vec<u8>)
    ensures
        r@ == image_of(carrier@, image_len),
{
    let mut bytes: Vec<u8> = carrier;
    if let Some(n) = image_len {
        if n < bytes.len() as u64 {
            bytes.truncate(n as usize);
        }
    }
    bytes
}

/// Stripping a bundle gives back the image it was packed on.
pub proof fn law_carrier_image_is_unchanged(image: Seq<u8>, payload: Seq<u8>, index: Seq<u8>)
    requires
        image.len() <= u64::MAX,
    ensures
        image_of(sealed(image + payload, index), Some(image.len() as u64)) == image,
{
    let file = sealed(image + payload, index);
    assert(file.len() >= image.len());
    if file.len() > image.len() {
        assert(file.take(image.len() as int) =~= image);
    } else {
        assert(file =~= image);
    }
}

/// What taking an entry out of a file comes to.
pub open spec fn extract_outcome(file: Seq<u8>, entry: EntryView) -> Result<
    Seq<u8>,
    ExtractErrorView,
> {
    if entry.compressed_len > 0 && entry.offset + entry.compressed_len > file.len() {
        Err(ExtractErrorView::Truncated)
    } else {
        let stream = if entry.compressed_len == 0 {
            Seq::empty()
        } else {
            file.subrange(entry.offset as int, (entry.offset + entry.compressed_len) as int)
        };
        checked_binary(inflated(stream), entry)
    }
}

/// What an inflated stream comes to: its length and its checksum must be those of the entry.
pub open spec fn checked_binary(data: Result<Seq<u8>, Seq<char>>, entry: EntryView) -> Result<
    Seq<u8>,
    ExtractErrorView,
> {
    match data {
        Err(reason) => Err(ExtractErrorView::Inflate { reason }),
        Ok(data) => if data.len() != entry.uncompressed_len {
            Err(ExtractErrorView::Length { expected: entry.uncompressed_len, got: data.len() })
        } else if crc32_of(data) != entry.crc32 {
            Err(ExtractErrorView::Checksum)
        } else {
            Ok(data)
        },
    }
}

/// Checks an inflated stream against its entry.
pub fn check_entry(data: Result<Vec<u8>, String>, entry: &BundleEntry) -> (r: Result<
    Vec<u8>,
    ExtractError,
>)
    ensures
        ({
            let given = match data {
                Ok(bytes) => Ok::<Seq<u8>, Seq<char>>(bytes@),
                Err(reason) => Err(reason@),
            };
            match r {
                Ok(bytes) => checked_binary(given, entry.deep_view()) == Ok::<
                    Seq<u8>,
                    ExtractErrorView,
                >(bytes@),
                Err(e) => checked_binary(given, entry.deep_view()) == Err::<
                    Seq<u8>,
                    ExtractErrorView,
                >(e.deep_view()),
            }
        }),
{
    match data {
        Ok(bytes) => {
            if bytes.len() as u64 != entry.uncompressed_len {
                return Err(
                    ExtractError::Length {
                        expected: entry.uncompressed_len,
                        got: bytes.len() as u64,
                    },
                );
            }
            if crc32(bytes.as_slice()) != entry.crc32 {
                return Err(ExtractError::Checksum);
            }
            Ok(bytes)
        },
        Err(reason) => Err(ExtractError::Inflate { reason }),
    }
}

/// Takes one carried binary out of a file, and checks its length and its checksum.
pub fn extract_entry(file: &[u8], entry: &BundleEntry) -> (r: Result<Vec<u8>, ExtractError>)
    ensures
        match r {
            Ok(bytes) => extract_outcome(file@, entry.deep_view()) == Ok::<
                Seq<u8>,
                ExtractErrorView,
            >(bytes@),
            Err(e) => extract_outcome(file@, entry.deep_view()) == Err::<
                Seq<u8>,
                ExtractErrorView,
            >(e.deep_view()),
        },
{
    let n: u64 = file.len() as u64;
    if entry.compressed_len == 0 {
        let empty: Vec<u8> = Vec::new();
        return check_entry(decompress(empty.as_slice()), entry);
    }
    if entry.offset > n || entry.compressed_len > n - entry.offset {
        return Err(ExtractError::Truncated);
    }
    let from: usize = entry.offset as usize;
    let to: usize = from + entry.compressed_len as usize;
    check_entry(decompress(slice_subrange(file, from, to)), entry)
}

impl ExtractError {
    /// The error as a line for the user.
    pub open spec fn message_spec(e: ExtractErrorView, entry: EntryView) -> Seq<char> {
        let key = BundleEntry::asset_key_spec(entry);
        match e {
            ExtractErrorView::Truncated => "failed to fill whole buffer"@,
            ExtractErrorView::Inflate { reason } => "failed to decompress "@ + key + " payload: "@
                + reason,
            ExtractErrorView::Length { expected, got } => key + " payload length mismatch: expected "@
                + decimal(expected) + ", got "@ + decimal(got),
            ExtractErrorView::Checksum => key + " payload failed CRC-32 check"@,
        }
    }

    pub fn message(&self, entry: &BundleEntry) -> (r: String)
        ensures
            r@ == ExtractError::message_spec(self.deep_view(), entry.deep_view()),
    {
        match self {
            ExtractError::Truncated => "failed to fill whole buffer".to_owned(),
            ExtractError::Inflate { reason } => {
                let mut line: String = "failed to decompress ".to_owned();
                line.append(entry.asset_key().as_str());
                line.append(" payload: ");
                line.append(reason.as_str());
                line
            },
            ExtractError::Length { expected, got } => {
                let mut line: String = entry.asset_key();
                line.append(" payload length mismatch: expected ");
                line.append(text::decimal_of(*expected as u128).as_str());
                line.append(", got ");
                line.append(text::decimal_of(*got as u128).as_str());
                line
            },
            ExtractError::Checksum => {
                let mut line: String = entry.asset_key();
                line.append(" payload failed CRC-32 check");
                line
            },
        }
    }
}

/// Whether the platform of `a` comes before that of `b`: by operating system, then by
/// architecture.
pub open spec fn platform_before(a: InputView, b: InputView) -> bool {
    lex_lt(a.os, b.os) || (a.os == b.os && lex_lt(a.arch, b.arch))
}

/// `x` put into the ordered row `s`, behind everything that does not come after it.
pub open spec fn insert_ordered(s: Seq<InputView>, x: InputView) -> Seq<InputView>
    decreases s.len(),
{
    if s.len() > 0 && platform_before(x, s.last()) {
        insert_ordered(s.drop_last(), x).push(s.last())
    } else {
        s.push(x)
    }
}

/// The inputs ordered by platform; those of one platform keep their order.
pub open spec fn ordered(inputs: Seq<InputView>) -> Seq<InputView>
    decreases inputs.len(),
{
    if inputs.len() == 0 {
        Seq::empty()
    } else {
        insert_ordered(ordered(inputs.drop_last()), inputs.last())
    }
}

/// The compressed binaries in a row.
pub open spec fn payload_of(inputs: Seq<InputView>) -> Seq<u8>
    decreases inputs.len(),
{
    if inputs.len() == 0 {
        Seq::empty()
    } else {
        payload_of(inputs.drop_last()) + deflated(inputs.last().binary, COMPRESSION_LEVEL)
    }
}

/// The entry of an input whose compressed bytes begin at `offset`.
pub open spec fn entry_of(input: InputView, offset: nat) -> EntryView {
    EntryView {
        os: input.os,
        arch: input.arch,
        offset,
        compressed_len: deflated(input.binary, COMPRESSION_LEVEL).len(),
        uncompressed_len: input.binary.len(),
        crc32: crc32_of(input.binary),
    }
}

/// The entries of the inputs, where the payload begins at `image_len`.
pub open spec fn entries_of(image_len: nat, inputs: Seq<InputView>) -> Seq<EntryView>
    decreases inputs.len(),
{
    if inputs.len() == 0 {
        Seq::empty()
    } else {
        entries_of(image_len, inputs.drop_last()).push(
            entry_of(inputs.last(), image_len + payload_of(inputs.drop_last()).len()),
        )
    }
}

/// Whether taking the entries out of `file` gives the binaries of the inputs.
pub open spec fn carries(file: Seq<u8>, entries: Seq<EntryView>, inputs: Seq<InputView>) -> bool {
    &&& entries.len() == inputs.len()
    &&& forall|k: int|
        #![trigger entries[k]]
        0 <= k < entries.len() ==> {
            let e = entries[k];
            &&& e.offset + e.compressed_len <= file.len()
            &&& extract_outcome(file, e) == Ok::<Seq<u8>, ExtractErrorView>(inputs[k].binary)
        }
}

/// The order in which the inputs are packed, as indices.
fn packing_order(inputs: &Vec<PackInput>) -> (r: Vec<usize>)
    ensures
        r@.len() == inputs@.len(),
        forall|k: int| 0 <= k < r@.len() ==> (#[trigger] r@[k]) < inputs@.len(),
        r@.map_values(|i: usize| inputs@[i as int].deep_view()) == ordered(inputs.deep_view()),
{
    let ghost views = inputs.deep_view();
    let ghost pick = |i: usize| inputs@[i as int].deep_view();
    let mut order: Vec<usize> = Vec::new();
    let mut i: usize = 0;
    assert(views.take(0) =~= Seq::<InputView>::empty());
    assert(order@.map_values(pick) =~= Seq::<InputView>::empty());
    while i < inputs.len()
        invariant
            i <= inputs@.len(),
            views == inputs.deep_view(),
            pick == (|i: usize| inputs@[i as int].deep_view()),
            order@.len() == i,
            forall|k: int| 0 <= k < order@.len() ==> (#[trigger] order@[k]) < inputs@.len(),
            order@.map_values(pick) == ordered(views.take(i as int)),
        decreases inputs@.len() - i,
    {
        let ghost sorted = order@.map_values(pick);
        let ghost x = views[i as int];
        let mut at: usize = order.len();
        assert(sorted.take(at as int) =~= sorted);
        assert(sorted.skip(at as int) =~= Seq::<InputView>::empty());
        while at > 0 && comes_first(&inputs[i], &inputs[order[at - 1]])
            invariant
                at <= order@.len(),
                i < inputs@.len(),
                views == inputs.deep_view(),
                pick == (|i: usize| inputs@[i as int].deep_view()),
                sorted == order@.map_values(pick),
                x == views[i as int],
                forall|k: int| 0 <= k < order@.len() ==> (#[trigger] order@[k]) < inputs@.len(),
                insert_ordered(sorted, x) =~= insert_ordered(sorted.take(at as int), x)
                    + sorted.skip(at as int),
            decreases at,
        {
            let ghost head = sorted.take(at as int);
            assert(head.last() == pick(order@[at - 1]));
            assert(head.drop_last() =~= sorted.take(at - 1));
            assert(seq![head.last()] + sorted.skip(at as int) =~= sorted.skip(at - 1));
            at = at - 1;
        }
        proof {
            let head = sorted.take(at as int);
            if at > 0 {
                assert(head.last() == pick(order@[at - 1]));
            }
            assert(insert_ordered(head, x) == head.push(x));
            assert(views.take(i + 1).drop_last() =~= views.take(i as int));
            assert(views.take(i + 1).last() == x);
        }
        let ghost before = order@;
        order.insert(at, i);
        assert(order@.map_values(pick) =~= sorted.take(at as int).push(x) + sorted.skip(
            at as int,
        ));
        assert forall|k: int| 0 <= k < order@.len() implies (#[trigger] order@[k])
            < inputs@.len() by {
            if k < at {
                assert(order@[k] == before[k]);
            } else if k > at {
                assert(order@[k] == before[k - 1]);
            }
        }
        i = i + 1;
    }
    assert(views.take(i as int) =~= views);
    order
}

/// Whether the platform of `a` comes before that of `b`.
fn comes_first(a: &PackInput, b: &PackInput) -> (r: bool)
    ensures
        r == platform_before(a.deep_view(), b.deep_view()),
{
    text::comes_before(a.os.as_str(), b.os.as_str()) || (a.os == b.os && text::comes_before(
        a.arch.as_str(),
        b.arch.as_str(),
    ))
}

/// Packs the binaries behind an executable image: the image with the compressed binaries, and the
/// index that describes them.
pub fn pack(
    image: Vec<u8>,
    inputs: &Vec<PackInput>,
    herdr_version: &str,
    build_commit: Option<String>,
) -> (r: (Vec<u8>, BundleIndex))
    ensures
        r.0@ == image@ + payload_of(ordered(inputs.deep_view())),
        r.1.deep_view() == (IndexView {
            format: FORMAT_VERSION,
            herdr_version: herdr_version@,
            build_commit: build_commit.deep_view(),
            image_len: image@.len(),
            entries: entries_of(image@.len(), ordered(inputs.deep_view())),
        }),
        carries(r.0@, r.1.deep_view().entries, ordered(inputs.deep_view())),
{
    let image_len: u64 = image.len() as u64;
    let ghost start = image@;
    let mut output: Vec<u8> = image;
    let order: Vec<usize> = packing_order(inputs);
    let ghost sorted = ordered(inputs.deep_view());
    let ghost pick = |i: usize| inputs@[i as int].deep_view();
    let mut entries: Vec<BundleEntry> = Vec::new();
    let mut k: usize = 0;
    proof {
        assert(sorted.take(0) =~= Seq::<InputView>::empty());
        assert(entries.deep_view() =~= Seq::<EntryView>::empty());
        assert(output@ =~= start + payload_of(sorted.take(0)));
    }
    while k < order.len()
        invariant
            k <= order@.len(),
            order@.len() == inputs@.len(),
            sorted.len() == order@.len(),
            pick == (|i: usize| inputs@[i as int].deep_view()),
            sorted == order@.map_values(pick),
            forall|j: int| 0 <= j < order@.len() ==> (#[trigger] order@[j]) < inputs@.len(),
            start.len() == image_len,
            output@ == start + payload_of(sorted.take(k as int)),
            entries.deep_view() == entries_of(start.len(), sorted.take(k as int)),
            carries(output@, entries.deep_view(), sorted.take(k as int)),
        decreases order@.len() - k,
    {
        let input: &PackInput = &inputs[order[k]];
        let ghost before = output@;
        let ghost listed = entries.deep_view();
        let ghost done = sorted.take(k as int);
        let ghost grown = sorted.take(k + 1);
        assert(pick(order@[k as int]) == input.deep_view());
        assert(grown.drop_last() =~= done);
        assert(grown.last() == input.deep_view());
        let compressed: Vec<u8> = compress(input.binary.as_slice(), COMPRESSION_LEVEL);
        let offset: u64 = output.len() as u64;
        let entry: BundleEntry = BundleEntry {
            os: input.os.clone(),
            arch: input.arch.clone(),
            offset,
            compressed_len: compressed.len() as u64,
            uncompressed_len: input.binary.len() as u64,
            crc32: crc32(input.binary.as_slice()),
        };
        let ghost e = entry.deep_view();
        append_bytes(&mut output, compressed.as_slice());
        entries.push(entry);
        proof {
            assert(entries.deep_view() =~= listed.push(e));
            assert(output@ =~= start + payload_of(grown));
            assert(output@.subrange(e.offset as int, (e.offset + e.compressed_len) as int)
                =~= compressed@);
            assert forall|j: int|
                #![trigger entries.deep_view()[j]]
                0 <= j < entries.deep_view().len() implies {
                let f = entries.deep_view()[j];
                &&& f.offset + f.compressed_len <= output@.len()
                &&& extract_outcome(output@, f) == Ok::<Seq<u8>, ExtractErrorView>(
                    grown[j].binary,
                )
            } by {
                if j < listed.len() {
                    assert(entries.deep_view()[j] == listed[j]);
                    assert(grown[j] == done[j]);
                    law_extract_ignores_what_follows(before, compressed@, listed[j]);
                } else {
                    assert(grown[j] == input.deep_view());
                    if e.compressed_len == 0 {
                        assert(compressed@ =~= Seq::<u8>::empty());
                    }
                }
            }
        }
        k = k + 1;
    }
    assert(sorted.take(k as int) =~= sorted);
    let index: BundleIndex = BundleIndex {
        format: FORMAT_VERSION,
        herdr_version: herdr_version.to_owned(),
        build_commit,
        image_len,
        entries,
    };
    (output, index)
}

/// Bytes behind an entry do not matter to taking it out.
pub proof fn law_extract_ignores_what_follows(file: Seq<u8>, more: Seq<u8>, entry: EntryView)
    requires
        entry.offset + entry.compressed_len <= file.len(),
    ensures
        extract_outcome(file + more, entry) == extract_outcome(file, entry),
{
    let from = entry.offset as int;
    let to = (entry.offset + entry.compressed_len) as int;
    assert((file + more).subrange(from, to) =~= file.subrange(from, to));
}

/// Every binary that was packed can be taken out of the sealed bundle.
pub proof fn law_sealed_bundle_carries(
    payload: Seq<u8>,
    index: Seq<u8>,
    entries: Seq<EntryView>,
    inputs: Seq<InputView>,
)
    requires
        carries(payload, entries, inputs),
    ensures
        carries(sealed(payload, index), entries, inputs),
{
    let footer = footer_of(payload.len() as u64, index.len() as u64);
    assert(sealed(payload, index) =~= payload + (index + footer));
    assert forall|k: int| #![trigger entries[k]] 0 <= k < entries.len() implies {
        let e = entries[k];
        &&& e.offset + e.compressed_len <= sealed(payload, index).len()
        &&& extract_outcome(sealed(payload, index), e) == Ok::<Seq<u8>, ExtractErrorView>(
            inputs[k].binary,
        )
    } by {
        law_extract_ignores_what_follows(payload, index + footer, entries[k]);
    }
}

/// Packing on a carrier that already carries this bundle gives the same bytes.
pub proof fn law_repack_is_idempotent(
    image: Seq<u8>,
    inputs: Seq<InputView>,
    index: Seq<u8>,
)
    requires
        image.len() <= u64::MAX,
    ensures
        ({
            let payload = image + payload_of(ordered(inputs));
            let stripped = image_of(sealed(payload, index), Some(image.len() as u64));
            &&& sealed(stripped + payload_of(ordered(inputs)), index) == sealed(payload, index)
            &&& entries_of(stripped.len(), ordered(inputs)) == entries_of(
                image.len(),
                ordered(inputs),
            )
        }),
{
    law_carrier_image_is_unchanged(image, payload_of(ordered(inputs)), index);
}

/// Whether no platform comes before an earlier one.
pub open spec fn is_ordered(s: Seq<InputView>) -> bool {
    forall|i: int, j: int|
        0 <= i < j < s.len() ==> !platform_before(#[trigger] s[j], #[trigger] s[i])
}

/// Whether each platform occurs once.
pub open spec fn platforms_differ(s: Seq<InputView>) -> bool {
    forall|i: int, j: int|
        0 <= i < j < s.len() ==> (#[trigger] s[i]).os != (#[trigger] s[j]).os || s[i].arch
            != s[j].arch
}

proof fn lemma_platform_total(a: InputView, b: InputView)
    ensures
        !(platform_before(a, b) && platform_before(b, a)),
        a.os != b.os || a.arch != b.arch ==> platform_before(a, b) || platform_before(b, a),
{
    text::lemma_lex_total(a.os, b.os);
    text::lemma_lex_total(a.arch, b.arch);
}

proof fn lemma_platform_transitive(a: InputView, b: InputView, c: InputView)
    requires
        !platform_before(b, a),
        platform_before(b, c),
    ensures
        !platform_before(c, a),
{
    if platform_before(c, a) {
        if lex_lt(b.os, c.os) && lex_lt(c.os, a.os) {
            text::lemma_lex_transitive(b.os, c.os, a.os);
        } else if b.os == c.os && c.os == a.os {
            text::lemma_lex_transitive(b.arch, c.arch, a.arch);
        }
    }
}

proof fn lemma_insert_ordered(s: Seq<InputView>, x: InputView)
    requires
        is_ordered(s),
    ensures
        is_ordered(insert_ordered(s, x)),
        insert_ordered(s, x).to_multiset() =~= s.to_multiset().insert(x),
        insert_ordered(s, x).len() == s.len() + 1,
    decreases s.len(),
{
    broadcast use vstd::seq_lib::group_to_multiset_ensures;

    if s.len() > 0 && platform_before(x, s.last()) {
        let front = s.drop_last();
        assert forall|i: int, j: int| 0 <= i < j < front.len() implies !platform_before(
            #[trigger] front[j],
            #[trigger] front[i],
        ) by {
            assert(front[j] == s[j] && front[i] == s[i]);
        }
        lemma_insert_ordered(front, x);
        let inner = insert_ordered(front, x);
        let r = inner.push(s.last());
        assert(s =~= front.push(s.last()));
        assert forall|i: int, j: int| 0 <= i < j < r.len() implies !platform_before(
            #[trigger] r[j],
            #[trigger] r[i],
        ) by {
            if j < inner.len() {
                assert(r[j] == inner[j] && r[i] == inner[i]);
            } else {
                assert(r[j] == s.last());
                assert(inner.to_multiset().contains(inner[i]));
                assert(front.to_multiset().insert(x).contains(inner[i]));
                if inner[i] == x {
                    lemma_platform_total(x, s.last());
                } else {
                    assert(front.to_multiset().contains(inner[i]));
                    assert(front.contains(inner[i]));
                    let k = choose|k: int| 0 <= k < front.len() && front[k] == inner[i];
                    assert(front[k] == s[k]);
                    assert(s[s.len() - 1] == s.last());
                }
            }
        }
    } else {
        let r = s.push(x);
        assert forall|i: int, j: int| 0 <= i < j < r.len() implies !platform_before(
            #[trigger] r[j],
            #[trigger] r[i],
        ) by {
            if j < s.len() {
                assert(r[j] == s[j] && r[i] == s[i]);
            } else {
                assert(r[j] == x);
                assert(r[i] == s[i]);
                if i < s.len() - 1 && platform_before(x, s[i]) {
                    let last = s[s.len() - 1];
                    assert(!platform_before(last, s[i]));
                    lemma_platform_transitive(last, x, s[i]);
                    lemma_platform_order(s[i], last, x);
                }
            }
        }
    }
}

proof fn lemma_platform_order(a: InputView, b: InputView, x: InputView)
    requires
        !platform_before(b, a),
        !platform_before(x, b),
    ensures
        !platform_before(x, a),
{
    if platform_before(x, a) {
        text::lemma_lex_total(a.os, b.os);
        text::lemma_lex_total(x.os, b.os);
        text::lemma_lex_total(a.arch, b.arch);
        text::lemma_lex_total(x.arch, b.arch);
        text::lemma_lex_total(x.os, a.os);
        text::lemma_lex_total(x.arch, a.arch);
        if lex_lt(a.os, b.os) && lex_lt(b.os, x.os) {
            text::lemma_lex_transitive(a.os, b.os, x.os);
        }
        if lex_lt(a.arch, b.arch) && lex_lt(b.arch, x.arch) {
            text::lemma_lex_transitive(a.arch, b.arch, x.arch);
        }
    }
}

/// The packing order holds every input once, and no platform before an earlier one.
pub proof fn law_packing_order(inputs: Seq<InputView>)
    ensures
        is_ordered(ordered(inputs)),
        ordered(inputs).to_multiset() =~= inputs.to_multiset(),
        ordered(inputs).len() == inputs.len(),
    decreases inputs.len(),
{
    broadcast use vstd::seq_lib::group_to_multiset_ensures;

    if inputs.len() > 0 {
        law_packing_order(inputs.drop_last());
        lemma_insert_ordered(ordered(inputs.drop_last()), inputs.last());
        assert(inputs =~= inputs.drop_last().push(inputs.last()));
    } else {
        assert(ordered(inputs) =~= inputs);
    }
}

/// Whether every platform comes before each later one.
spec fn strictly_ordered(s: Seq<InputView>) -> bool {
    forall|i: int, j: int|
        0 <= i < j < s.len() ==> platform_before(#[trigger] s[i], #[trigger] s[j])
}

proof fn lemma_strict_order_unique(a: Seq<InputView>, b: Seq<InputView>)
    requires
        strictly_ordered(a),
        strictly_ordered(b),
        a.to_multiset() =~= b.to_multiset(),
    ensures
        a == b,
    decreases a.len(),
{
    broadcast use vstd::seq_lib::group_to_multiset_ensures;

    assert(a.len() == a.to_multiset().len());
    assert(b.len() == b.to_multiset().len());
    if a.len() == 0 {
        assert(a =~= b);
    } else {
        let x = a.last();
        let y = b.last();
        assert(a[a.len() - 1] == x);
        assert(b[b.len() - 1] == y);
        assert(b.to_multiset().contains(x));
        assert(b.contains(x));
        assert(a.to_multiset().contains(y));
        assert(a.contains(y));
        if x != y {
            let i = choose|i: int| 0 <= i < b.len() && b[i] == x;
            let j = choose|j: int| 0 <= j < a.len() && a[j] == y;
            assert(platform_before(b[i], b[b.len() - 1]));
            assert(platform_before(a[j], a[a.len() - 1]));
            lemma_platform_total(x, y);
        }
        let p = a.drop_last();
        let q = b.drop_last();
        assert(a =~= p.push(x));
        assert(b =~= q.push(y));
        assert(p.to_multiset() =~= a.to_multiset().remove(x));
        assert(q.to_multiset() =~= b.to_multiset().remove(y));
        assert(strictly_ordered(p)) by {
            assert forall|i: int, j: int| 0 <= i < j < p.len() implies platform_before(
                #[trigger] p[i],
                #[trigger] p[j],
            ) by {
                assert(p[i] == a[i] && p[j] == a[j]);
            }
        }
        assert(strictly_ordered(q)) by {
            assert forall|i: int, j: int| 0 <= i < j < q.len() implies platform_before(
                #[trigger] q[i],
                #[trigger] q[j],
            ) by {
                assert(q[i] == b[i] && q[j] == b[j]);
            }
        }
        lemma_strict_order_unique(p, q);
    }
}

proof fn lemma_ordered_strictly(inputs: Seq<InputView>)
    requires
        platforms_differ(inputs),
    ensures
        strictly_ordered(ordered(inputs)),
{
    broadcast use vstd::seq_lib::group_to_multiset_ensures;

    law_packing_order(inputs);
    let s = ordered(inputs);
    assert forall|i: int, j: int| 0 <= i < j < s.len() implies platform_before(
        #[trigger] s[i],
        #[trigger] s[j],
    ) by {
        lemma_platform_total(s[i], s[j]);
        lemma_platforms_stay_apart(inputs, s, i, j);
    }
}

proof fn lemma_platforms_stay_apart(inputs: Seq<InputView>, s: Seq<InputView>, i: int, j: int)
    requires
        platforms_differ(inputs),
        s.to_multiset() =~= inputs.to_multiset(),
        0 <= i < j < s.len(),
    ensures
        s[i].os != s[j].os || s[i].arch != s[j].arch,
{
    broadcast use vstd::seq_lib::group_to_multiset_ensures;

    let x = s[i];
    let y = s[j];
    assert(inputs.to_multiset().contains(x));
    assert(inputs.to_multiset().contains(y));
    let p = choose|p: int| 0 <= p < inputs.len() && inputs[p] == x;
    let q = choose|q: int| 0 <= q < inputs.len() && inputs[q] == y;
    assert(inputs.contains(x) && inputs.contains(y));
    if p < q {
        assert(inputs[p].os != inputs[q].os || inputs[p].arch != inputs[q].arch);
    } else if q < p {
        assert(inputs[q].os != inputs[p].os || inputs[q].arch != inputs[p].arch);
    } else {
        let t = s.remove(j);
        assert(t[i] == x);
        assert(t.to_multiset() =~= s.to_multiset().remove(y));
        assert(t.to_multiset().contains(x));
        let u = inputs.remove(p);
        assert(u.to_multiset() =~= inputs.to_multiset().remove(y));
        assert(u.to_multiset().contains(x));
        assert(u.contains(x));
        let k = choose|k: int| 0 <= k < u.len() && u[k] == x;
        if k < p {
            assert(inputs[k].os != inputs[p].os || inputs[k].arch != inputs[p].arch);
        } else {
            assert(inputs[p].os != inputs[k + 1].os || inputs[p].arch != inputs[k + 1].arch);
        }
    }
}

/// The order in which the inputs are given does not show in the layout, as long as no platform is
/// given twice.
pub proof fn law_layout_ignores_input_order(a: Seq<InputView>, b: Seq<InputView>)
    requires
        platforms_differ(a),
        platforms_differ(b),
        a.to_multiset() =~= b.to_multiset(),
    ensures
        ordered(a) == ordered(b),
{
    law_packing_order(a);
    law_packing_order(b);
    lemma_ordered_strictly(a);
    lemma_ordered_strictly(b);
    lemma_strict_order_unique(ordered(a), ordered(b));
}

} // verus!
