use crate::archive_formats::afs::{afs_decoded, afs_detected};
use crate::archive_formats::concat2k::{concat2k_decoded, concat2k_detected, concat2k_probed};
use crate::archive_formats::infdatabin::{databin_decoded, databin_detected};
use crate::archive_formats::lnk::{lnk_decoded, lnk_detected};
use crate::archive_formats::{afs, concat2k, infdatabin, lnk, Archive, ArchiveView};
use crate::byte_slice::{be_u32, le_u32};
use crate::data_formats::cps::cps_decoded;
use crate::data_formats::cps_pc::cps_pc_decoded;
use crate::data_formats::lzss::lzss_decoded;
use crate::data_formats::lzss_be::lzss_be_decoded;
use crate::data_formats::{cps, cps_pc, lzss, lzss_be};
use crate::error::DecodeError;
use crate::file_data::{Disk, FileData, FileDataView};
use crate::image::{Image, ImageView};
use crate::image_formats::bip::bip_decoded;
use crate::image_formats::common_image::picture_image;
use crate::image_formats::gim::gim_decoded;
use crate::image_formats::klz::klz_decoded;
use crate::image_formats::ogdt::ogdt_decoded;
use crate::image_formats::prt::prt_decoded;
use crate::image_formats::pvr::pvr_decoded;
use crate::image_formats::tim::tim_decoded;
use crate::image_formats::tim2::tim2_decoded;
use crate::image_formats::{bip, common_image, gim, klz, ogdt, prt, pvr, tim, tim2};
use crate::outside::{image_loaded, PictureKind};
use crate::Certainty;
use vstd::prelude::*;

verus! {

/// The formats that can be told and decoded.
#[derive(Clone, Copy, PartialEq, Eq, Structural, Debug)]
pub enum Decoder {
    Afs,
    Lnk,
    Concat2k,
    Databin,
    Prt,
    Tim2,
    Ogdt,
    Gim,
    Klz,
    Bip,
    Pvr,
    Tim,
    Png,
    Jpeg,
    Bmp,
    Gif,
    Lzss,
    Cps,
    CpsPc,
    LzssBe,
}

/// What a step of decoding gives: bytes to decode further, an archive, or an image.
#[derive(Clone, Debug, PartialEq, Eq)]
pub enum DynData {
    Raw(FileData),
    Archive(Archive),
    Image(Image),
}

/// What a step of decoding gives, with views for what it holds.
pub enum DynDataView {
    Raw(FileDataView),
    Archive(ArchiveView),
    Image(ImageView),
}

impl View for DynData {
    type V = DynDataView;

    open spec fn view(&self) -> DynDataView {
        match *self {
            DynData::Raw(data) => DynDataView::Raw(data@),
            DynData::Archive(archive) => DynDataView::Archive(archive@),
            DynData::Image(image) => DynDataView::Image(image@),
        }
    }
}

impl From<FileData> for DynData {
    /// Bytes as what a step gives.
    fn from(value: FileData) -> (r: DynData) {
        DynData::Raw(value)
    }
}

impl vstd::std_specs::convert::FromSpecImpl<FileData> for DynData {
    open spec fn obeys_from_spec() -> bool {
        true
    }

    open spec fn from_spec(value: FileData) -> DynData {
        DynData::Raw(value)
    }
}

impl From<Vec<u8>> for DynData {
    /// Bytes in memory as what a step gives.
    fn from(value: Vec<u8>) -> (r: DynData) {
        DynData::Raw(FileData::Memory { buf: value })
    }
}

impl vstd::std_specs::convert::FromSpecImpl<Vec<u8>> for DynData {
    open spec fn obeys_from_spec() -> bool {
        true
    }

    open spec fn from_spec(value: Vec<u8>) -> DynData {
        DynData::Raw(FileData::Memory { buf: value })
    }
}

impl From<Archive> for DynData {
    /// An archive as what a step gives.
    fn from(value: Archive) -> (r: DynData) {
        DynData::Archive(value)
    }
}

impl vstd::std_specs::convert::FromSpecImpl<Archive> for DynData {
    open spec fn obeys_from_spec() -> bool {
        true
    }

    open spec fn from_spec(value: Archive) -> DynData {
        DynData::Archive(value)
    }
}

impl From<Image> for DynData {
    /// An image as what a step gives.
    fn from(value: Image) -> (r: DynData) {
        DynData::Image(value)
    }
}

impl vstd::std_specs::convert::FromSpecImpl<Image> for DynData {
    open spec fn obeys_from_spec() -> bool {
        true
    }

    open spec fn from_spec(value: Image) -> DynData {
        DynData::Image(value)
    }
}

/// The view of what a decoder returned.
pub open spec fn dyn_outcome(r: Result<DynData, DecodeError>) -> Result<DynDataView, DecodeError> {
    match r {
        Ok(data) => Ok(data@),
        Err(e) => Err(e),
    }
}

/// The archive formats, in the order in which they are tried.
pub open spec fn archive_registry() -> Seq<Decoder> {
    seq![Decoder::Afs, Decoder::Lnk, Decoder::Concat2k, Decoder::Databin]
}

/// The image formats, in the order in which they are tried.
pub open spec fn image_registry() -> Seq<Decoder> {
    seq![
        Decoder::Prt,
        Decoder::Tim2,
        Decoder::Ogdt,
        Decoder::Gim,
        Decoder::Klz,
        Decoder::Bip,
        Decoder::Pvr,
        Decoder::Tim,
        Decoder::Png,
        Decoder::Jpeg,
        Decoder::Bmp,
        Decoder::Gif,
    ]
}

/// The compression formats, in the order in which they are tried.
pub open spec fn data_registry() -> Seq<Decoder> {
    seq![Decoder::Lzss, Decoder::Cps, Decoder::CpsPc, Decoder::LzssBe]
}

/// The archive formats, in the order in which they are tried.
pub fn archive_decoders() -> (r: Vec<Decoder>)
    ensures
        r@ == archive_registry(),
{
    let r: Vec<Decoder> = vec![Decoder::Afs, Decoder::Lnk, Decoder::Concat2k, Decoder::Databin];
    assert(r@ =~= archive_registry());
    r
}

/// The image formats, in the order in which they are tried.
pub fn image_decoders() -> (r: Vec<Decoder>)
    ensures
        r@ == image_registry(),
{
    let r: Vec<Decoder> = vec![
        Decoder::Prt,
        Decoder::Tim2,
        Decoder::Ogdt,
        Decoder::Gim,
        Decoder::Klz,
        Decoder::Bip,
        Decoder::Pvr,
        Decoder::Tim,
        Decoder::Png,
        Decoder::Jpeg,
        Decoder::Bmp,
        Decoder::Gif,
    ];
    assert(r@ =~= image_registry());
    r
}

/// The compression formats, in the order in which they are tried.
pub fn data_decoders() -> (r: Vec<Decoder>)
    ensures
        r@ == data_registry(),
{
    let r: Vec<Decoder> = vec![Decoder::Lzss, Decoder::Cps, Decoder::CpsPc, Decoder::LzssBe];
    assert(r@ =~= data_registry());
    r
}

/// Whether `magic` stands at `offset` of a source.
pub open spec fn stands(v: FileDataView, disk: Disk, magic: Seq<u8>, offset: int) -> bool {
    v.probe(disk, offset, magic.len() as int) == Some(magic)
}

/// Whether the header of a compressed stream is plausible: the size that it
/// announces, little-endian or, where `big`, big-endian, is more than 32 and less than
/// 32 Mi, and the source is longer than 32 bytes.
pub open spec fn plausible_size(v: FileDataView, disk: Disk, big: bool) -> bool {
    match v.chunk(disk, 0, 4) {
        Some(b) => {
            let size = if big {
                be_u32(b, 0)
            } else {
                le_u32(b, 0)
            };
            32 < size < 32 * 1024 * 1024 && v.after_chunk(disk, 0, 4).len() > 32
        },
        None => false,
    }
}

/// `Certain` where the condition holds, else `Impossible`.
pub open spec fn certain_where(cond: bool) -> Certainty {
    if cond {
        Certainty::Certain
    } else {
        Certainty::Impossible
    }
}

/// `Possible` where the condition holds, else `Impossible`.
pub open spec fn possible_where(cond: bool) -> Certainty {
    if cond {
        Certainty::Possible
    } else {
        Certainty::Impossible
    }
}

impl Decoder {
    /// How sure it is that a source is of this format.
    #[verifier::opaque]
    pub open spec fn detected(self, v: FileDataView, disk: Disk) -> Certainty {
        match self {
            Decoder::Afs => afs_detected(v, disk),
            Decoder::Lnk => lnk_detected(v, disk),
            Decoder::Concat2k => concat2k_detected(v, disk),
            Decoder::Databin => databin_detected(v, disk),
            Decoder::Prt => certain_where(
                stands(v, disk, prt::prt_magic(), 0) || stands(v, disk, prt::prt_magic(), 16),
            ),
            Decoder::Tim2 => certain_where(
                stands(v, disk, tim2::tim2_magic(), 0) && !stands(
                    v,
                    disk,
                    tim2::pngfile3_magic(),
                    0x40,
                ),
            ),
            Decoder::Ogdt => certain_where(stands(v, disk, ogdt::ogdt_magic(), 0)),
            Decoder::Gim => certain_where(stands(v, disk, gim_magic(), 0)),
            Decoder::Klz => certain_where(
                stands(v, disk, tim2::tim2_magic(), 0) && stands(
                    v,
                    disk,
                    tim2::pngfile3_magic(),
                    0x40,
                ),
            ),
            Decoder::Bip => certain_where(
                v.chunk(disk, 0, 4) matches Some(b) && (le_u32(b, 0) == 5 || le_u32(b, 0) == 10),
            ),
            Decoder::Pvr => {
                let start: int = if stands(v, disk, pvr::gbix_magic(), 0) {
                    16
                } else {
                    0
                };
                certain_where(
                    stands(v, disk, pvr::pvrt_magic(), start) || stands(
                        v,
                        disk,
                        pvr::pvpl_magic(),
                        start,
                    ),
                )
            },
            Decoder::Tim => certain_where(
                stands(v, disk, tim::tim_magic(), 0) && (v.chunk(disk, 4, 4) matches Some(b) && (
                le_u32(b, 0) == 8 || le_u32(b, 0) == 9 || le_u32(b, 0) == 2 || le_u32(b, 0)
                    == 3)),
            ),
            Decoder::Png => certain_where(stands(v, disk, common_image::png_magic(), 0)),
            Decoder::Jpeg => certain_where(stands(v, disk, common_image::jpeg_magic(), 0)),
            Decoder::Bmp => certain_where(stands(v, disk, common_image::bmp_magic(), 0)),
            Decoder::Gif => certain_where(
                stands(v, disk, common_image::gif89_magic(), 0) || stands(
                    v,
                    disk,
                    common_image::gif87_magic(),
                    0,
                ),
            ),
            Decoder::Lzss => possible_where(plausible_size(v, disk, false)),
            Decoder::Cps => certain_where(
                stands(v, disk, ogdt::ogdt_magic(), 4) || stands(v, disk, tim2::tim2_magic(), 4),
            ),
            Decoder::CpsPc => certain_where(stands(v, disk, cps_pc_magic(), 0)),
            Decoder::LzssBe => certain_where(plausible_size(v, disk, true)),
        }
    }

    /// The source after it has been asked whether it is of this format. A format
    /// that is told by a field of its header reads that field, which unpacks a
    /// compressed source; a format that is told by a signature leaves the source as it is.
    #[verifier::opaque]
    pub open spec fn after_detect(self, v: FileDataView, disk: Disk) -> FileDataView {
        match self {
            Decoder::Concat2k => concat2k_probed(v, disk),
            Decoder::Bip | Decoder::Lzss | Decoder::LzssBe => v.after_chunk(disk, 0, 4),
            Decoder::Tim => if stands(v, disk, tim::tim_magic(), 0) {
                v.after_chunk(disk, 4, 4)
            } else {
                v
            },
            _ => v,
        }
    }

    /// Whether the format is read from all the bytes of a source at once.
    pub open spec fn reads_all(self) -> bool {
        !(self == Decoder::Afs || self == Decoder::Lnk || self == Decoder::Concat2k || self
            == Decoder::Databin)
    }

    /// What all the bytes of a source decode to, for a format that is read from them.
    #[verifier::opaque]
    pub open spec fn decoded_bytes(self, c: Seq<u8>) -> Result<DynDataView, DecodeError> {
        match self {
            Decoder::Prt => image_view(prt_decoded(c)),
            Decoder::Tim2 => image_view(tim2_decoded(c)),
            Decoder::Ogdt => image_view(ogdt_decoded(c)),
            Decoder::Gim => image_view(gim_decoded(c)),
            Decoder::Klz => image_view(klz_decoded(c)),
            Decoder::Bip => image_view(bip_decoded(c)),
            Decoder::Pvr => image_view(pvr_decoded(c)),
            Decoder::Tim => image_view(tim_decoded(c)),
            Decoder::Png => image_view(picture_image(image_loaded(c, PictureKind::Png))),
            Decoder::Jpeg => image_view(picture_image(image_loaded(c, PictureKind::Jpeg))),
            Decoder::Bmp => image_view(picture_image(image_loaded(c, PictureKind::Bmp))),
            Decoder::Gif => image_view(picture_image(image_loaded(c, PictureKind::Gif))),
            Decoder::Lzss => raw_view(lzss_decoded(c)),
            Decoder::Cps => raw_view(cps_decoded(c)),
            Decoder::CpsPc => raw_view(cps_pc_decoded(c)),
            _ => raw_view(lzss_be_decoded(c)),
        }
    }

    /// What a source decodes to.
    #[verifier::opaque]
    pub open spec fn decoded(self, v: FileDataView, disk: Disk) -> Result<DynDataView, DecodeError> {
        match self {
            Decoder::Afs => archive_view(afs_decoded(v, disk)),
            Decoder::Lnk => archive_view(lnk_decoded(v, disk)),
            Decoder::Concat2k => archive_view(concat2k_decoded(v, disk)),
            Decoder::Databin => archive_view(databin_decoded(v, disk)),
            _ => match v.contents(disk) {
                None => Err(DecodeError::Io),
                Some(c) => self.decoded_bytes(c),
            },
        }
    }

    /// The source after it has been decoded: in memory, for a format that is read from
    /// all the bytes at once.
    #[verifier::opaque]
    pub open spec fn after_decode(self, v: FileDataView, disk: Disk) -> FileDataView {
        match self {
            Decoder::Afs | Decoder::Lnk => v.after_chunk(disk, 4, 4),
            Decoder::Concat2k => v.settled(disk),
            Decoder::Databin => v,
            _ => v.after_read(disk),
        }
    }
}

/// The twelve bytes `MIG.00.1PSP` and zero.
pub open spec fn gim_magic() -> Seq<u8> {
    seq![
        0x4Du8,
        0x49u8,
        0x47u8,
        0x2Eu8,
        0x30u8,
        0x30u8,
        0x2Eu8,
        0x31u8,
        0x50u8,
        0x53u8,
        0x50u8,
        0u8,
    ]
}

/// The four bytes `CPS` and zero.
pub open spec fn cps_pc_magic() -> Seq<u8> {
    seq![0x43u8, 0x50u8, 0x53u8, 0u8]
}

/// An image as what a step gives.
pub open spec fn image_view(r: Result<ImageView, DecodeError>) -> Result<DynDataView, DecodeError> {
    match r {
        Ok(image) => Ok(DynDataView::Image(image)),
        Err(e) => Err(e),
    }
}

/// An archive as what a step gives.
pub open spec fn archive_view(r: Result<ArchiveView, DecodeError>) -> Result<
    DynDataView,
    DecodeError,
> {
    match r {
        Ok(archive) => Ok(DynDataView::Archive(archive)),
        Err(e) => Err(e),
    }
}

/// Bytes in memory as what a step gives.
pub open spec fn raw_view(r: Result<Seq<u8>, DecodeError>) -> Result<DynDataView, DecodeError> {
    match r {
        Ok(buf) => Ok(DynDataView::Raw(FileDataView::Memory { buf })),
        Err(e) => Err(e),
    }
}

/// Tells whether `magic` stands at `offset` of a source.
fn probe(data: &mut FileData, disk: &Disk, magic: &[u8], offset: usize) -> (r: bool)
    ensures
        r == stands(old(data)@, *disk, magic@, offset as int),
        final(data)@ == old(data)@,
{
    data.starts_with_at(disk, magic, offset)
}

/// Tells whether the header of a compressed stream is plausible.
fn plausible(data: &mut FileData, disk: &Disk, big: bool) -> (r: bool)
    ensures
        r == plausible_size(old(data)@, *disk, big),
        final(data)@ == old(data)@.after_chunk(*disk, 0, 4),
{
    let size: Option<u32> = if big {
        data.get_u32_at_be(disk, 0)
    } else {
        data.get_u32_at(disk, 0)
    };
    match size {
        Some(size) => size > 32 && size < 32 * 1024 * 1024 && data.len() > 32,
        None => false,
    }
}

/// Wraps decompressed bytes as what a step gives.
fn raw(r: Result<Vec<u8>, DecodeError>) -> (out: Result<DynData, DecodeError>)
    ensures
        dyn_outcome(out) == raw_view(crate::data_formats::bytes_outcome(r)),
        out matches Ok(data) ==> data is Raw,
{
    match r {
        Ok(buf) => Ok(DynData::Raw(FileData::Memory { buf })),
        Err(e) => Err(e),
    }
}

/// Wraps an image as what a step gives.
fn image(r: Result<Image, DecodeError>) -> (out: Result<DynData, DecodeError>)
    ensures
        dyn_outcome(out) == image_view(crate::image::image_outcome(r)),
        out matches Ok(DynData::Image(image)) ==> r matches Ok(inner) && image == inner,
        out matches Ok(data) ==> data is Image,
{
    match r {
        Ok(image) => Ok(DynData::Image(image)),
        Err(e) => Err(e),
    }
}

/// Wraps an archive as what a step gives.
fn archive(r: Result<Archive, DecodeError>) -> (out: Result<DynData, DecodeError>)
    ensures
        dyn_outcome(out) == archive_view(crate::archive_formats::archive_outcome(r)),
        out matches Ok(data) ==> data is Archive,
{
    match r {
        Ok(archive) => Ok(DynData::Archive(archive)),
        Err(e) => Err(e),
    }
}

impl Decoder {
    /// The short name of the format.
    pub open spec fn id_text(self) -> Seq<char> {
        match self {
            Decoder::Afs => "afs"@,
            Decoder::Lnk => "lnk"@,
            Decoder::Concat2k => "concat2k"@,
            Decoder::Databin => "databin"@,
            Decoder::Prt => "prt"@,
            Decoder::Tim2 => "tim2"@,
            Decoder::Ogdt => "ogdt"@,
            Decoder::Gim => "gim"@,
            Decoder::Klz => "klz"@,
            Decoder::Bip => "bip"@,
            Decoder::Pvr => "pvr"@,
            Decoder::Tim => "tim"@,
            Decoder::Png => "png"@,
            Decoder::Jpeg => "jpeg"@,
            Decoder::Bmp => "bmp"@,
            Decoder::Gif => "gif"@,
            Decoder::Lzss => "lzss"@,
            Decoder::Cps => "cps"@,
            Decoder::CpsPc => "cps_pc"@,
            Decoder::LzssBe => "lzss-be"@,
        }
    }

    /// The short name of the format.
    pub fn id(self) -> (r: &'static str)
        ensures
            r@ == self.id_text(),
    {
        match self {
            Decoder::Afs => "afs",
            Decoder::Lnk => "lnk",
            Decoder::Concat2k => "concat2k",
            Decoder::Databin => "databin",
            Decoder::Prt => "prt",
            Decoder::Tim2 => "tim2",
            Decoder::Ogdt => "ogdt",
            Decoder::Gim => "gim",
            Decoder::Klz => "klz",
            Decoder::Bip => "bip",
            Decoder::Pvr => "pvr",
            Decoder::Tim => "tim",
            Decoder::Png => "png",
            Decoder::Jpeg => "jpeg",
            Decoder::Bmp => "bmp",
            Decoder::Gif => "gif",
            Decoder::Lzss => "lzss",
            Decoder::Cps => "cps",
            Decoder::CpsPc => "cps_pc",
            Decoder::LzssBe => "lzss-be",
        }
    }

    /// What the format is, in a few words.
    pub open spec fn desc_text(self) -> Seq<char> {
        match self {
            Decoder::Afs => "CRI AFS archive used in most KID games"@,
            Decoder::Lnk => "KID PC archive"@,
            Decoder::Concat2k => "Not an actual format, just concatenated images aligned to 2048 bytes"@,
            Decoder::Databin => "SLPS-02669 archive"@,
            Decoder::Prt => "Old KID PC image format"@,
            Decoder::Tim2 => "PlayStation 2 official image format"@,
            Decoder::Ogdt => "KID PS2 image format"@,
            Decoder::Gim => "PlayStation Portable official image format"@,
            Decoder::Klz => "12Riven image format"@,
            Decoder::Bip => "Remember11 image format"@,
            Decoder::Pvr => "Dreamcast image format"@,
            Decoder::Tim => "PlayStation 1 official image format"@,
            Decoder::Png => "PNG"@,
            Decoder::Jpeg => "JPEG"@,
            Decoder::Bmp => "BMP"@,
            Decoder::Gif => "GIF"@,
            Decoder::Lzss => "The common lzss.c from Haruhiko Okumura"@,
            Decoder::Cps => "KID compression format"@,
            Decoder::CpsPc => "Old KID PC port obfuscated compression format"@,
            Decoder::LzssBe => "LZSS-like used in N7 DC and 12R PS2"@,
        }
    }

    /// What the format is, in a few words.
    pub fn desc(self) -> (r: &'static str)
        ensures
            r@ == self.desc_text(),
    {
        match self {
            Decoder::Afs => "CRI AFS archive used in most KID games",
            Decoder::Lnk => "KID PC archive",
            Decoder::Concat2k => "Not an actual format, just concatenated images aligned to 2048 bytes",
            Decoder::Databin => "SLPS-02669 archive",
            Decoder::Prt => "Old KID PC image format",
            Decoder::Tim2 => "PlayStation 2 official image format",
            Decoder::Ogdt => "KID PS2 image format",
            Decoder::Gim => "PlayStation Portable official image format",
            Decoder::Klz => "12Riven image format",
            Decoder::Bip => "Remember11 image format",
            Decoder::Pvr => "Dreamcast image format",
            Decoder::Tim => "PlayStation 1 official image format",
            Decoder::Png => "PNG",
            Decoder::Jpeg => "JPEG",
            Decoder::Bmp => "BMP",
            Decoder::Gif => "GIF",
            Decoder::Lzss => "The common lzss.c from Haruhiko Okumura",
            Decoder::Cps => "KID compression format",
            Decoder::CpsPc => "Old KID PC port obfuscated compression format",
            Decoder::LzssBe => "LZSS-like used in N7 DC and 12R PS2",
        }
    }

    /// Tells how sure it is that a source is of this format.
    pub fn detect(self, data: &mut FileData, disk: &Disk) -> (r: Certainty)
        ensures
            r == self.detected(old(data)@, *disk),
            final(data)@ == self.after_detect(old(data)@, *disk),
    {
        reveal(Decoder::detected);
        reveal(Decoder::after_detect);
        let tim2_magic: [u8; 4] = [0x54, 0x49, 0x4D, 0x32];
        let pngfile3: [u8; 8] = [0x50, 0x4E, 0x47, 0x46, 0x49, 0x4C, 0x45, 0x33];
        let ogdt_magic: [u8; 4] = [0x6F, 0x67, 0x64, 0x74];
        assert(tim2_magic@ =~= tim2::tim2_magic());
        assert(pngfile3@ =~= tim2::pngfile3_magic());
        assert(ogdt_magic@ =~= ogdt::ogdt_magic());
        match self {
            Decoder::Afs => afs::detect(data, disk),
            Decoder::Lnk => lnk::detect(data, disk),
            Decoder::Concat2k => concat2k::detect(data, disk),
            Decoder::Databin => infdatabin::detect(data, disk),
            Decoder::Prt => {
                let magic: [u8; 4] = [0x50, 0x52, 0x54, 0];
                assert(magic@ =~= prt::prt_magic());
                Certainty::certain_if(
                    probe(data, disk, magic.as_slice(), 0) || probe(
                        data,
                        disk,
                        magic.as_slice(),
                        16,
                    ),
                )
            },
            Decoder::Tim2 => Certainty::certain_if(
                probe(data, disk, tim2_magic.as_slice(), 0) && !probe(
                    data,
                    disk,
                    pngfile3.as_slice(),
                    0x40,
                ),
            ),
            Decoder::Ogdt => Certainty::certain_if(probe(data, disk, ogdt_magic.as_slice(), 0)),
            Decoder::Gim => {
                let magic: [u8; 12] = [
                    0x4D,
                    0x49,
                    0x47,
                    0x2E,
                    0x30,
                    0x30,
                    0x2E,
                    0x31,
                    0x50,
                    0x53,
                    0x50,
                    0,
                ];
                assert(magic@ =~= gim_magic());
                Certainty::certain_if(probe(data, disk, magic.as_slice(), 0))
            },
            Decoder::Klz => Certainty::certain_if(
                probe(data, disk, tim2_magic.as_slice(), 0) && probe(
                    data,
                    disk,
                    pngfile3.as_slice(),
                    0x40,
                ),
            ),
            Decoder::Bip => {
                match data.get_u32_at(disk, 0) {
                    Some(first) => Certainty::certain_if(first == 5 || first == 10),
                    None => Certainty::Impossible,
                }
            },
            Decoder::Pvr => {
                let gbix: [u8; 4] = [0x47, 0x42, 0x49, 0x58];
                let pvpl: [u8; 4] = [0x50, 0x56, 0x50, 0x4C];
                let pvrt: [u8; 4] = [0x50, 0x56, 0x52, 0x54];
                assert(gbix@ =~= pvr::gbix_magic());
                assert(pvpl@ =~= pvr::pvpl_magic());
                assert(pvrt@ =~= pvr::pvrt_magic());
                let start: usize = if probe(data, disk, gbix.as_slice(), 0) {
                    16
                } else {
                    0
                };
                Certainty::certain_if(
                    probe(data, disk, pvrt.as_slice(), start) || probe(
                        data,
                        disk,
                        pvpl.as_slice(),
                        start,
                    ),
                )
            },
            Decoder::Tim => {
                let magic: [u8; 4] = [16, 0, 0, 0];
                assert(magic@ =~= tim::tim_magic());
                if !probe(data, disk, magic.as_slice(), 0) {
                    return Certainty::Impossible;
                }
                match data.get_u32_at(disk, 4) {
                    Some(tag) => Certainty::certain_if(tag == 8 || tag == 9 || tag == 2 || tag == 3),
                    None => Certainty::Impossible,
                }
            },
            Decoder::Png => {
                let magic: [u8; 8] = [0x89, 0x50, 0x4E, 0x47, 0x0D, 0x0A, 0x1A, 0x0A];
                assert(magic@ =~= common_image::png_magic());
                Certainty::certain_if(probe(data, disk, magic.as_slice(), 0))
            },
            Decoder::Jpeg => {
                let magic: [u8; 3] = [0xFF, 0xD8, 0xFF];
                assert(magic@ =~= common_image::jpeg_magic());
                Certainty::certain_if(probe(data, disk, magic.as_slice(), 0))
            },
            Decoder::Bmp => {
                let magic: [u8; 2] = [0x42, 0x4D];
                assert(magic@ =~= common_image::bmp_magic());
                Certainty::certain_if(probe(data, disk, magic.as_slice(), 0))
            },
            Decoder::Gif => {
                let gif89: [u8; 6] = [0x47, 0x49, 0x46, 0x38, 0x39, 0x61];
                let gif87: [u8; 6] = [0x47, 0x49, 0x46, 0x38, 0x37, 0x61];
                assert(gif89@ =~= common_image::gif89_magic());
                assert(gif87@ =~= common_image::gif87_magic());
                Certainty::certain_if(
                    probe(data, disk, gif89.as_slice(), 0) || probe(data, disk, gif87.as_slice(), 0),
                )
            },
            Decoder::Lzss => Certainty::possible_if(plausible(data, disk, false)),
            Decoder::Cps => Certainty::certain_if(
                probe(data, disk, ogdt_magic.as_slice(), 4) || probe(
                    data,
                    disk,
                    tim2_magic.as_slice(),
                    4,
                ),
            ),
            Decoder::CpsPc => {
                let magic: [u8; 4] = [0x43, 0x50, 0x53, 0];
                assert(magic@ =~= cps_pc_magic());
                Certainty::certain_if(probe(data, disk, magic.as_slice(), 0))
            },
            Decoder::LzssBe => Certainty::certain_if(plausible(data, disk, true)),
        }
    }

    /// Decodes all the bytes of a source, for a format that is read from them.
    pub fn decode_bytes(self, bytes: &[u8]) -> (r: Result<DynData, DecodeError>)
        requires
            self.reads_all(),
        ensures
            dyn_outcome(r) == self.decoded_bytes(bytes@),
            r matches Ok(DynData::Image(image)) ==> image.wf(),
    {
        reveal(Decoder::decoded_bytes);
        match self {
            Decoder::Prt => image(prt::decode(bytes)),
            Decoder::Tim2 => image(tim2::decode(bytes)),
            Decoder::Ogdt => image(ogdt::decode(bytes)),
            Decoder::Gim => image(gim::decode(bytes)),
            Decoder::Klz => image(klz::decode(bytes)),
            Decoder::Bip => image(bip::decode(bytes)),
            Decoder::Pvr => image(pvr::decode(bytes)),
            Decoder::Tim => image(tim::decode(bytes)),
            Decoder::Png => image(common_image::decode(bytes, PictureKind::Png)),
            Decoder::Jpeg => image(common_image::decode(bytes, PictureKind::Jpeg)),
            Decoder::Bmp => image(common_image::decode(bytes, PictureKind::Bmp)),
            Decoder::Gif => image(common_image::decode(bytes, PictureKind::Gif)),
            Decoder::Lzss => raw(lzss::decode(bytes)),
            Decoder::Cps => raw(cps::decode(bytes)),
            Decoder::CpsPc => raw(cps_pc::decode(bytes)),
            _ => raw(lzss_be::decode(bytes)),
        }
    }

    /// Decodes a source.
    pub fn decode(self, data: &mut FileData, disk: &Disk) -> (r: Result<DynData, DecodeError>)
        ensures
            dyn_outcome(r) == self.decoded(old(data)@, *disk),
            final(data)@ == self.after_decode(old(data)@, *disk),
            r matches Ok(DynData::Image(image)) ==> image.wf(),
    {
        reveal(Decoder::decoded);
        reveal(Decoder::after_decode);
        match self {
            Decoder::Afs => archive(afs::decode(data, disk)),
            Decoder::Lnk => archive(lnk::decode(data, disk)),
            Decoder::Concat2k => archive(concat2k::decode(data, disk)),
            Decoder::Databin => archive(infdatabin::decode(data, disk)),
            _ => {
                match data.read(disk) {
                    Ok(bytes) => self.decode_bytes(bytes),
                    Err(e) => Err(e),
                }
            },
        }
    }
}

} // verus!
