use crate::text::{decimal, decimal_digits, hex, hex_digits};
use vstd::prelude::*;
use vstd::string::StringExecFns;

verus! {

/// A part of a texture chunk that a file may be too short for.
#[derive(Clone, Copy, Debug, PartialEq, Eq)]
pub enum PvrPart {
    /// The codebook.
    VqCodebook,
    /// The indices into the codebook.
    VqIndices,
    /// Pixels of five bits a color and one of alpha.
    Pixels5551,
    /// Pixels of five, six and five bits.
    Pixels565,
    /// Pixels of four bits a channel.
    Pixels4444,
    /// The palette for four-bit indices.
    Palette4,
    /// The four-bit indices after a palette.
    Indices4,
    /// The four-bit indices of a file whose palette is in a chunk of its own.
    Data4,
    /// The palette for eight-bit indices.
    Palette8,
    /// The eight-bit indices after a palette.
    Indices8,
    /// The eight-bit indices of a file whose palette is in a chunk of its own.
    Data8,
}

/// Why a decoder gave up on its input.
#[derive(Clone, Copy, Debug, PartialEq, Eq)]
pub enum DecodeError {
    /// A fixed-width field lay outside the bytes.
    ReadField,
    /// A named region lay outside the bytes.
    ReadRegion { name: &'static str },
    /// A file that a streamed source names could not be read.
    Io,
    /// A part asked of a source lies beyond its end.
    SubfileRange,
    /// Raw pixel data does not make the frame it is meant for: a palette entry is
    /// missing, or the pixels do not fill the frame.
    PixelData,
    /// An image has more pixels than can be counted.
    ImageSize,
    /// The tile width lay outside the file.
    OgdtWidth,
    /// The tile height lay outside the file.
    OgdtHeight,
    /// The number of columns lay outside the file.
    OgdtColumns,
    /// The number of rows lay outside the file.
    OgdtRows,
    /// The palette for eight-bit indices lay outside the file.
    OgdtClut8,
    /// The palette for four-bit indices lay outside the file.
    OgdtClut4,
    /// The format code is none that is known.
    OgdtFormat { id: u32 },
    /// A tile lay outside the file.
    OgdtPixels,
    /// The version of the file is none that can be read.
    PrtVersion { version: u16 },
    /// The number of bits of a pixel is none that can be read.
    PrtBpp { bpp: u16 },
    /// The header is not that of an image of this kind.
    TimHeader,
    /// The file is shorter than the size of its pixel data.
    TimPixels,
    /// The kind of pixel data is one that cannot be read.
    TimUnsupported,
    /// A block of the tree does not lead on to a later one.
    GimBlockSize,
    /// The palette lay outside the file.
    GimPalette,
    /// The format code is none that is known.
    GimFormat { format: u16 },
    /// The alignment of the rows is too small for a pixel.
    GimAlignment,
    /// The pixels lay outside the file.
    GimPixels,
    /// The file holds no frame.
    GimNoFrames,
    /// The length of a palette chunk does not fit the file.
    PvplLength,
    /// The file holds no texture chunk.
    PvrNoTexture,
    /// The length of the texture chunk does not fit the file.
    PvrtLength,
    /// The texture chunk is too short for a part of its data.
    PvrData { part: PvrPart },
    /// The texture wants a palette from elsewhere.
    PvrExternalPalette,
    /// The format code is none that is known.
    PvrFormat { pixel_format: u8 },
    /// A PNG picture is of a color type that has no label.
    PngColorType,
    /// An entry is shorter than it says.
    KlzShort { declared: u64, available: u64 },
    /// An entry is too short for what it holds.
    KlzEntrySize,
    /// The PNG picture of an entry failed before its image data.
    KlzGxt5Info,
    /// The PNG picture of an entry failed in its image data.
    KlzGxt5Frame,
    /// The PNG picture of an entry with red and blue exchanged failed before its image data.
    KlzBgraInfo,
    /// The PNG picture of an entry with red and blue exchanged failed in its image data.
    KlzBgraFrame,
    /// The indices of an entry could not be inflated.
    KlzInflate,
    /// The file holds no entry.
    KlzNoFrames,
    /// The frames of the file are not laid out so that they can be read.
    Tim2Layout,
    /// The frames of the file could not be read.
    Tim2Parse,
    /// The file holds no frame with pixels.
    Tim2NoFrames,
    /// A tile reaches a block or more beyond its frame.
    BipTileOverflow,
    /// A palette lay outside the file.
    BipPalette,
    /// The picture of a tile lay outside the file.
    BipPngRange,
    /// The picture of a tile failed before its image data.
    BipPngInfo,
    /// The picture of a tile failed in its image data.
    BipPngFrame,
    /// The record of a tile is of a length that is not known.
    BipTileSize { size: u16 },
    /// The file holds no frame.
    BipNoFrames,
    /// A common image file could not be loaded.
    CommonImage,
    /// An archive claims more entries than can be.
    EntryCount,
    /// The name of an entry lay outside the source.
    NameRead,
    /// The name of an entry is not UTF-8.
    NameUtf8,
    /// The companion file of the archive could not be read as far as needed.
    DatabinRead,
    /// The name of an entry is not UTF-8.
    DatabinName,
    /// The archive has no companion file beside it.
    DatabinNoCompanion,
    /// The source is not a file of the archive's name.
    DatabinNotDataBin,
    /// A scan for concatenated files found only one.
    Concat2kSingle,
    /// The header does not announce a plausible size.
    LzssHeader,
    /// The stream ended before the announced size was reached.
    LzssTooShort { expected: usize, actual: usize },
    /// The stream held more than the announced size.
    LzssOverrun { expected: usize },
    /// The header does not announce a plausible size.
    LzssBeHeader,
    /// The input ran out before the announced size was reached.
    LzssBeWrongSize { expected: usize, actual: usize },
    /// A reference could not be followed.
    LzssBeBadReference,
    /// The header does not announce a plausible size.
    LzssDcHeader,
    /// The input ran out before the announced size was reached.
    LzssDcTooShort { expected: usize, actual: usize },
    /// A token broke a rule of the strict variant.
    LzssDcBadToken,
    /// A token was cut off by the end of the plain data.
    CpsPcTruncated,
    /// A copy reached back before the start of the output.
    CpsPcBackrefOffset,
    /// The tokens did not produce the announced size.
    CpsPcUnpackedSize { expected: usize, actual: usize },
    /// The compression type is one that cannot be read.
    CpsPcUnsupported,
    /// The plain data is shorter than the announced size.
    CpsPcPlainSize { expected: usize, actual: usize },
    /// A back-reference token was cut off by the end of the stream.
    CpsIncompleteBackref,
    /// A back-reference pointed before the start of the output.
    CpsBackrefOffset,
    /// A back-reference read past the announced size.
    CpsBackrefLength,
    /// A back-reference wrote past the announced size.
    CpsBackrefOverrun { expected: usize },
    /// A literal chunk wrote past the announced size.
    CpsRawOverrun { expected: usize },
    /// The stream ended before the announced size was reached.
    CpsTooShort { expected: usize, actual: usize },
}

impl PvrPart {
    /// What the part is called in a message.
    pub open spec fn text(self) -> Seq<char> {
        match self {
            PvrPart::VqCodebook => "16-bit VQ codebook data"@,
            PvrPart::VqIndices => "VQ index data"@,
            PvrPart::Pixels5551 => "pixel data for BGRA5551"@,
            PvrPart::Pixels565 => "pixel data for BGR565"@,
            PvrPart::Pixels4444 => "pixel data for BGRA4444"@,
            PvrPart::Palette4 => "palette data for BGRA clut4"@,
            PvrPart::Indices4 => "index data for BGRA clut4"@,
            PvrPart::Data4 => "data for BGRA clut4"@,
            PvrPart::Palette8 => "palette data for BGRA clut8"@,
            PvrPart::Indices8 => "index data for BGRA clut8"@,
            PvrPart::Data8 => "data for BGRA clut8"@,
        }
    }

    /// What the part is called in a message.
    pub fn name(self) -> (r: &'static str)
        ensures
            r@ == self.text(),
    {
        match self {
            PvrPart::VqCodebook => "16-bit VQ codebook data",
            PvrPart::VqIndices => "VQ index data",
            PvrPart::Pixels5551 => "pixel data for BGRA5551",
            PvrPart::Pixels565 => "pixel data for BGR565",
            PvrPart::Pixels4444 => "pixel data for BGRA4444",
            PvrPart::Palette4 => "palette data for BGRA clut4",
            PvrPart::Indices4 => "index data for BGRA clut4",
            PvrPart::Data4 => "data for BGRA clut4",
            PvrPart::Palette8 => "palette data for BGRA clut8",
            PvrPart::Indices8 => "index data for BGRA clut8",
            PvrPart::Data8 => "data for BGRA clut8",
        }
    }
}

impl DecodeError {
    /// The message of the failure.
    pub open spec fn text(self) -> Seq<char> {
        match self {
            DecodeError::ReadField => "error reading field"@,
            DecodeError::ReadRegion { name } => "error reading "@ + name@,
            DecodeError::Io => "could not read the file of a streamed source"@,
            DecodeError::SubfileRange => "subfile request is beyond file end"@,
            DecodeError::PixelData => "pixel data does not make the frame it is meant for"@,
            DecodeError::ImageSize => "image has more pixels than can be counted"@,
            DecodeError::OgdtWidth => "could not read width"@,
            DecodeError::OgdtHeight => "could not read height"@,
            DecodeError::OgdtColumns => "could not read column count"@,
            DecodeError::OgdtRows => "could not read row count"@,
            DecodeError::OgdtClut8 => "could not read clut8"@,
            DecodeError::OgdtClut4 => "could not read clut4"@,
            DecodeError::OgdtFormat { id } => "unknown format id 0x"@ + hex_digits((id as u64) as nat),
            DecodeError::OgdtPixels => "could not read pixels"@,
            DecodeError::PrtVersion { version } => "unsupported prt version "@ + decimal_digits((version as u64) as nat),
            DecodeError::PrtBpp { bpp } => "unexpected bpp of "@ + decimal_digits((bpp as u64) as nat),
            DecodeError::TimHeader => "could not decode header"@,
            DecodeError::TimPixels => "not enough pixels"@,
            DecodeError::TimUnsupported => "Psx16 pixels are not supported"@,
            DecodeError::GimBlockSize => "block does not lead on to a later one"@,
            DecodeError::GimPalette => "could not read palette"@,
            DecodeError::GimFormat { format } => "unhandled pixel format 0x"@ + hex_digits((format as u64) as nat),
            DecodeError::GimAlignment => "row alignment is too small for a pixel"@,
            DecodeError::GimPixels => "could not read pixels"@,
            DecodeError::GimNoFrames => "no frames were decoded successfully"@,
            DecodeError::PvplLength => "PVPL length field is incorrect"@,
            DecodeError::PvrNoTexture => "PVRT header not found in file"@,
            DecodeError::PvrtLength => "PVRT length field is incorrect"@,
            DecodeError::PvrData { part } => "not enough "@ + part.text(),
            DecodeError::PvrExternalPalette => "file needs external palette, unimplemented"@,
            DecodeError::PvrFormat { pixel_format } => "unhandled PVR pixel format "@ + decimal_digits((pixel_format as u64) as nat),
            DecodeError::PngColorType => "unhandled PNG color type"@,
            DecodeError::KlzShort { declared, available } => "expected "@ + decimal_digits((declared) as nat) + " bytes, had only "@ + decimal_digits((available) as nat),
            DecodeError::KlzEntrySize => "entry is too short for what it holds"@,
            DecodeError::KlzGxt5Info => "in GXT5 PNG info"@,
            DecodeError::KlzGxt5Frame => "in GXT5 PNG frame"@,
            DecodeError::KlzBgraInfo => "error reading BGRA PNG info"@,
            DecodeError::KlzBgraFrame => "error reading BGRA PNG frame"@,
            DecodeError::KlzInflate => "error decompressing FXT5 pixel section"@,
            DecodeError::KlzNoFrames => "no frames in image"@,
            DecodeError::Tim2Layout => "frames are not laid out so that they can be read"@,
            DecodeError::Tim2Parse => "frames could not be read"@,
            DecodeError::Tim2NoFrames => "no frames were decoded successfully"@,
            DecodeError::BipTileOverflow => "tile overflow"@,
            DecodeError::BipPalette => "could not read palette"@,
            DecodeError::BipPngRange => "could not read the picture of a tile"@,
            DecodeError::BipPngInfo => "in PNGFILE2 PNG info"@,
            DecodeError::BipPngFrame => "in PNGFILE2 PNG frame"@,
            DecodeError::BipTileSize { size } => "unhandled bip tile index size "@ + decimal_digits((size as u64) as nat),
            DecodeError::BipNoFrames => "no frames decoded"@,
            DecodeError::CommonImage => "could not load image"@,
            DecodeError::EntryCount => "impossibly large entry count"@,
            DecodeError::NameRead => "could not read entry name"@,
            DecodeError::NameUtf8 => "entry name is not valid UTF-8"@,
            DecodeError::DatabinRead => "error while reading slps_026.69"@,
            DecodeError::DatabinName => "error while reading entry name from data.bin"@,
            DecodeError::DatabinNoCompanion => "data.bin must be accompanied by slps_026.69"@,
            DecodeError::DatabinNotDataBin => "not a data.bin file"@,
            DecodeError::Concat2kSingle => "could not find multiple entries"@,
            DecodeError::LzssHeader => ""@,
            DecodeError::LzssTooShort { expected, actual } => "expected "@ + decimal_digits((expected as u64) as nat) + " bytes when decompressing, got only "@ + decimal_digits((actual as u64) as nat),
            DecodeError::LzssOverrun { expected } => "expected "@ + decimal_digits((expected as u64) as nat) + " bytes when decompressing, got more"@,
            DecodeError::LzssBeHeader => ""@,
            DecodeError::LzssBeWrongSize { expected, actual } => "expected "@ + decimal_digits((expected as u64) as nat) + " bytes when decompressing, got "@ + decimal_digits((actual as u64) as nat),
            DecodeError::LzssBeBadReference => "error while decompressing"@,
            DecodeError::LzssDcHeader => ""@,
            DecodeError::LzssDcTooShort { expected, actual } => "expected "@ + decimal_digits((expected as u64) as nat) + " bytes when decompressing, got only "@ + decimal_digits((actual as u64) as nat),
            DecodeError::LzssDcBadToken => "error while decompressing"@,
            DecodeError::CpsPcTruncated => "token cut off by the end of the data"@,
            DecodeError::CpsPcBackrefOffset => "invalid backreference offset"@,
            DecodeError::CpsPcUnpackedSize { expected, actual } => "wrong unpacked size after lnd decompression, expected "@ + decimal_digits((expected as u64) as nat) + ", got "@ + decimal_digits((actual as u64) as nat),
            DecodeError::CpsPcUnsupported => "compression type not supported"@,
            DecodeError::CpsPcPlainSize { expected, actual } => "wrong unpacked size after deobfuscation, expected "@ + decimal_digits((expected as u64) as nat) + ", got "@ + decimal_digits((actual as u64) as nat),
            DecodeError::CpsIncompleteBackref => "incomplete backreference"@,
            DecodeError::CpsBackrefOffset => "invalid backreference offset"@,
            DecodeError::CpsBackrefLength => "invalid backreference length"@,
            DecodeError::CpsBackrefOverrun { expected } => "expected "@ + decimal_digits((expected as u64) as nat) + " bytes when decompressing, got more from backreference"@,
            DecodeError::CpsRawOverrun { expected } => "expected "@ + decimal_digits((expected as u64) as nat) + " bytes when decompressing, got more from raw chunk"@,
            DecodeError::CpsTooShort { expected, actual } => "expected "@ + decimal_digits((expected as u64) as nat) + " bytes when decompressing, got only "@ + decimal_digits((actual as u64) as nat),
        }
    }

    /// Writes the message of the failure.
    pub fn message(&self) -> (r: String)
        ensures
            r@ == self.text(),
    {
        let r: String = match *self {
            DecodeError::ReadField => String::from_str("error reading field"),
            DecodeError::ReadRegion { name } => String::from_str("error reading ").concat(name),
            DecodeError::Io => String::from_str("could not read the file of a streamed source"),
            DecodeError::SubfileRange => String::from_str("subfile request is beyond file end"),
            DecodeError::PixelData => String::from_str("pixel data does not make the frame it is meant for"),
            DecodeError::ImageSize => String::from_str("image has more pixels than can be counted"),
            DecodeError::OgdtWidth => String::from_str("could not read width"),
            DecodeError::OgdtHeight => String::from_str("could not read height"),
            DecodeError::OgdtColumns => String::from_str("could not read column count"),
            DecodeError::OgdtRows => String::from_str("could not read row count"),
            DecodeError::OgdtClut8 => String::from_str("could not read clut8"),
            DecodeError::OgdtClut4 => String::from_str("could not read clut4"),
            DecodeError::OgdtFormat { id } => String::from_str("unknown format id 0x").concat(hex(id as u64).as_str()),
            DecodeError::OgdtPixels => String::from_str("could not read pixels"),
            DecodeError::PrtVersion { version } => String::from_str("unsupported prt version ").concat(decimal(version as u64).as_str()),
            DecodeError::PrtBpp { bpp } => String::from_str("unexpected bpp of ").concat(decimal(bpp as u64).as_str()),
            DecodeError::TimHeader => String::from_str("could not decode header"),
            DecodeError::TimPixels => String::from_str("not enough pixels"),
            DecodeError::TimUnsupported => String::from_str("Psx16 pixels are not supported"),
            DecodeError::GimBlockSize => String::from_str("block does not lead on to a later one"),
            DecodeError::GimPalette => String::from_str("could not read palette"),
            DecodeError::GimFormat { format } => String::from_str("unhandled pixel format 0x").concat(hex(format as u64).as_str()),
            DecodeError::GimAlignment => String::from_str("row alignment is too small for a pixel"),
            DecodeError::GimPixels => String::from_str("could not read pixels"),
            DecodeError::GimNoFrames => String::from_str("no frames were decoded successfully"),
            DecodeError::PvplLength => String::from_str("PVPL length field is incorrect"),
            DecodeError::PvrNoTexture => String::from_str("PVRT header not found in file"),
            DecodeError::PvrtLength => String::from_str("PVRT length field is incorrect"),
            DecodeError::PvrData { part } => String::from_str("not enough ").concat(part.name()),
            DecodeError::PvrExternalPalette => String::from_str("file needs external palette, unimplemented"),
            DecodeError::PvrFormat { pixel_format } => String::from_str("unhandled PVR pixel format ").concat(decimal(pixel_format as u64).as_str()),
            DecodeError::PngColorType => String::from_str("unhandled PNG color type"),
            DecodeError::KlzShort { declared, available } => String::from_str("expected ").concat(decimal(declared).as_str()).concat(" bytes, had only ").concat(decimal(available).as_str()),
            DecodeError::KlzEntrySize => String::from_str("entry is too short for what it holds"),
            DecodeError::KlzGxt5Info => String::from_str("in GXT5 PNG info"),
            DecodeError::KlzGxt5Frame => String::from_str("in GXT5 PNG frame"),
            DecodeError::KlzBgraInfo => String::from_str("error reading BGRA PNG info"),
            DecodeError::KlzBgraFrame => String::from_str("error reading BGRA PNG frame"),
            DecodeError::KlzInflate => String::from_str("error decompressing FXT5 pixel section"),
            DecodeError::KlzNoFrames => String::from_str("no frames in image"),
            DecodeError::Tim2Layout => String::from_str("frames are not laid out so that they can be read"),
            DecodeError::Tim2Parse => String::from_str("frames could not be read"),
            DecodeError::Tim2NoFrames => String::from_str("no frames were decoded successfully"),
            DecodeError::BipTileOverflow => String::from_str("tile overflow"),
            DecodeError::BipPalette => String::from_str("could not read palette"),
            DecodeError::BipPngRange => String::from_str("could not read the picture of a tile"),
            DecodeError::BipPngInfo => String::from_str("in PNGFILE2 PNG info"),
            DecodeError::BipPngFrame => String::from_str("in PNGFILE2 PNG frame"),
            DecodeError::BipTileSize { size } => String::from_str("unhandled bip tile index size ").concat(decimal(size as u64).as_str()),
            DecodeError::BipNoFrames => String::from_str("no frames decoded"),
            DecodeError::CommonImage => String::from_str("could not load image"),
            DecodeError::EntryCount => String::from_str("impossibly large entry count"),
            DecodeError::NameRead => String::from_str("could not read entry name"),
            DecodeError::NameUtf8 => String::from_str("entry name is not valid UTF-8"),
            DecodeError::DatabinRead => String::from_str("error while reading slps_026.69"),
            DecodeError::DatabinName => String::from_str("error while reading entry name from data.bin"),
            DecodeError::DatabinNoCompanion => String::from_str("data.bin must be accompanied by slps_026.69"),
            DecodeError::DatabinNotDataBin => String::from_str("not a data.bin file"),
            DecodeError::Concat2kSingle => String::from_str("could not find multiple entries"),
            DecodeError::LzssHeader => String::from_str(""),
            DecodeError::LzssTooShort { expected, actual } => String::from_str("expected ").concat(decimal(expected as u64).as_str()).concat(" bytes when decompressing, got only ").concat(decimal(actual as u64).as_str()),
            DecodeError::LzssOverrun { expected } => String::from_str("expected ").concat(decimal(expected as u64).as_str()).concat(" bytes when decompressing, got more"),
            DecodeError::LzssBeHeader => String::from_str(""),
            DecodeError::LzssBeWrongSize { expected, actual } => String::from_str("expected ").concat(decimal(expected as u64).as_str()).concat(" bytes when decompressing, got ").concat(decimal(actual as u64).as_str()),
            DecodeError::LzssBeBadReference => String::from_str("error while decompressing"),
            DecodeError::LzssDcHeader => String::from_str(""),
            DecodeError::LzssDcTooShort { expected, actual } => String::from_str("expected ").concat(decimal(expected as u64).as_str()).concat(" bytes when decompressing, got only ").concat(decimal(actual as u64).as_str()),
            DecodeError::LzssDcBadToken => String::from_str("error while decompressing"),
            DecodeError::CpsPcTruncated => String::from_str("token cut off by the end of the data"),
            DecodeError::CpsPcBackrefOffset => String::from_str("invalid backreference offset"),
            DecodeError::CpsPcUnpackedSize { expected, actual } => String::from_str("wrong unpacked size after lnd decompression, expected ").concat(decimal(expected as u64).as_str()).concat(", got ").concat(decimal(actual as u64).as_str()),
            DecodeError::CpsPcUnsupported => String::from_str("compression type not supported"),
            DecodeError::CpsPcPlainSize { expected, actual } => String::from_str("wrong unpacked size after deobfuscation, expected ").concat(decimal(expected as u64).as_str()).concat(", got ").concat(decimal(actual as u64).as_str()),
            DecodeError::CpsIncompleteBackref => String::from_str("incomplete backreference"),
            DecodeError::CpsBackrefOffset => String::from_str("invalid backreference offset"),
            DecodeError::CpsBackrefLength => String::from_str("invalid backreference length"),
            DecodeError::CpsBackrefOverrun { expected } => String::from_str("expected ").concat(decimal(expected as u64).as_str()).concat(" bytes when decompressing, got more from backreference"),
            DecodeError::CpsRawOverrun { expected } => String::from_str("expected ").concat(decimal(expected as u64).as_str()).concat(" bytes when decompressing, got more from raw chunk"),
            DecodeError::CpsTooShort { expected, actual } => String::from_str("expected ").concat(decimal(expected as u64).as_str()).concat(" bytes when decompressing, got only ").concat(decimal(actual as u64).as_str()),
        };
        assert(r@ =~= self.text());
        r
    }
}

} // verus!
