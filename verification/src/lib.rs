use vstd::prelude::*;
use vstd::string::StringExecFns;

pub mod archive_formats;
pub mod byte_iter;
pub mod byte_slice;
pub mod data_formats;
pub mod error;
pub mod file_data;
pub mod image;
pub mod image_formats;
pub mod outside;
pub mod registry;
pub mod text;

use crate::archive_formats::afs::{afs_decoded, afs_detected};
use crate::archive_formats::lnk::{lnk_decoded, lnk_detected};
use crate::archive_formats::ArchiveView;
use crate::error::DecodeError;
use crate::file_data::{Disk, FileData, FileDataView};
use crate::registry::{
    archive_decoders,
    archive_registry,
    data_decoders,
    data_registry,
    image_decoders,
    image_registry,
    Decoder,
    DynData,
    DynDataView,
};

verus! {

/// How sure a decoder is that a byte stream is in its format.
#[derive(Clone, Copy, PartialEq, Eq, Structural, Debug)]
pub enum Certainty {
    Impossible,
    Possible,
    Certain,
}

impl Certainty {
    /// `Certain` when the condition holds, `Impossible` otherwise.
    pub fn certain_if(cond: bool) -> (r: Certainty)
        ensures
            r == (if cond {
                Certainty::Certain
            } else {
                Certainty::Impossible
            }),
    {
        if cond {
            Certainty::Certain
        } else {
            Certainty::Impossible
        }
    }

    /// `Possible` when the condition holds, `Impossible` otherwise.
    pub fn possible_if(cond: bool) -> (r: Certainty)
        ensures
            r == (if cond {
                Certainty::Possible
            } else {
                Certainty::Impossible
            }),
    {
        if cond {
            Certainty::Possible
        } else {
            Certainty::Impossible
        }
    }
}

/// Why a step of decoding gave nothing.
#[derive(Clone, Copy, PartialEq, Eq, Debug)]
pub enum StepError {
    /// No format was told.
    NoDecoder,
    /// The format that was told for certain could not be decoded.
    Failed { decoder: Decoder, cause: DecodeError },
    /// Bytes kept decoding to further bytes, more often than is allowed.
    TooManySteps,
}

impl DecodeError {
    /// Whether the failure says nothing: a header did not announce a plausible size.
    pub open spec fn is_unspecified(self) -> bool {
        self == DecodeError::LzssHeader || self == DecodeError::LzssBeHeader || self
            == DecodeError::LzssDcHeader
    }
}

impl StepError {
    /// The message of the failure.
    pub open spec fn text(self) -> Seq<char> {
        match self {
            StepError::NoDecoder => "could not fully decode file"@,
            StepError::Failed { decoder, cause } => if cause.is_unspecified() {
                "unspecified error from "@ + decoder.id_text()
            } else {
                "error from "@ + decoder.id_text() + ": "@ + cause.text()
            },
            StepError::TooManySteps => "too many decoding steps"@,
        }
    }

    /// Writes the message of the failure.
    pub fn message(&self) -> (r: String)
        ensures
            r@ == self.text(),
    {
        match *self {
            StepError::NoDecoder => String::from_str("could not fully decode file"),
            StepError::Failed { decoder, cause } => {
                let unspecified: bool = match cause {
                    DecodeError::LzssHeader
                    | DecodeError::LzssBeHeader
                    | DecodeError::LzssDcHeader => true,
                    _ => false,
                };
                if unspecified {
                    String::from_str("unspecified error from ").concat(decoder.id())
                } else {
                    String::from_str("error from ").concat(decoder.id()).concat(": ").concat(
                        cause.message().as_str(),
                    )
                }
            },
            StepError::TooManySteps => String::from_str("too many decoding steps"),
        }
    }
}

/// The largest number of steps that bytes may take on their way to an archive or an image.
pub const MAX_STEPS: usize = 64;

/// What a search through the formats of one kind found, and the source afterwards.
pub struct Search {
    /// What was decoded and by which format; `None` where no format took the source.
    pub found: Result<Option<(Decoder, DynDataView)>, StepError>,
    /// The source after the search.
    pub after: FileDataView,
}

/// What the search for a format that is certain found from format `i` on: `None`
/// where no format is certain. The first format that is certain decides: it takes
/// the source, unless it is the one that is not allowed.
pub open spec fn certain_pass(
    v: FileDataView,
    disk: Disk,
    decoders: Seq<Decoder>,
    i: int,
    disallow: Option<Decoder>,
) -> (Option<Result<Option<(Decoder, DynDataView)>, StepError>>, FileDataView)
    decreases decoders.len() - i,
{
    if i < 0 || i >= decoders.len() {
        (None, v)
    } else {
        let d = decoders[i];
        let probed = d.after_detect(v, disk);
        if d.detected(v, disk) == Certainty::Certain {
            if Some(d) == disallow {
                (Some(Ok(None)), probed)
            } else {
                (
                    Some(
                        match d.decoded(probed, disk) {
                            Ok(data) => Ok(Some((d, data))),
                            Err(cause) => Err(StepError::Failed { decoder: d, cause }),
                        },
                    ),
                    d.after_decode(probed, disk),
                )
            }
        } else {
            certain_pass(probed, disk, decoders, i + 1, disallow)
        }
    }
}

/// What the search for a format that is possible found from format `i` on. The
/// first allowed format that is possible and decodes the source takes it.
pub open spec fn possible_pass(
    v: FileDataView,
    disk: Disk,
    decoders: Seq<Decoder>,
    i: int,
    disallow: Option<Decoder>,
) -> (Option<(Decoder, DynDataView)>, FileDataView)
    decreases decoders.len() - i,
{
    if i < 0 || i >= decoders.len() {
        (None, v)
    } else {
        let d = decoders[i];
        let probed = d.after_detect(v, disk);
        if Some(d) == disallow {
            possible_pass(v, disk, decoders, i + 1, disallow)
        } else if d.detected(v, disk) == Certainty::Possible {
            match d.decoded(probed, disk) {
                Ok(data) => (Some((d, data)), d.after_decode(probed, disk)),
                Err(_) => possible_pass(
                    d.after_decode(probed, disk),
                    disk,
                    decoders,
                    i + 1,
                    disallow,
                ),
            }
        } else {
            possible_pass(probed, disk, decoders, i + 1, disallow)
        }
    }
}

/// What a search through the formats of one kind finds: first a format that is
/// certain; failing that, and unless low confidence is to be discarded, a format
/// that is possible.
pub open spec fn searched(
    v: FileDataView,
    disk: Disk,
    decoders: Seq<Decoder>,
    disallow: Option<Decoder>,
    discard_low_confidence: bool,
) -> Search {
    let certain = certain_pass(v, disk, decoders, 0, disallow);
    match certain.0 {
        Some(found) => Search { found, after: certain.1 },
        None => if discard_low_confidence {
            Search { found: Ok(None), after: certain.1 }
        } else {
            let possible = possible_pass(certain.1, disk, decoders, 0, disallow);
            Search { found: Ok(possible.0), after: possible.1 }
        },
    }
}

/// What one step of decoding gives, and the source afterwards.
pub struct Step {
    pub outcome: Result<(Decoder, DynDataView), StepError>,
    pub after: FileDataView,
}

/// What a step gives once no format is certain: the first format that is possible and
/// decodes the source, among the archive formats, then the image formats, then the
/// compression formats. A kind is searched only where its flag says so.
pub open spec fn guessed(
    v: FileDataView,
    disk: Disk,
    disallow: Option<Decoder>,
    archives: bool,
    images: bool,
    compressions: bool,
) -> Step {
    let a = if archives {
        possible_pass(v, disk, archive_registry(), 0, disallow)
    } else {
        (None, v)
    };
    let i = if images {
        possible_pass(a.1, disk, image_registry(), 0, disallow)
    } else {
        (None, a.1)
    };
    let d = if compressions {
        possible_pass(i.1, disk, data_registry(), 0, disallow)
    } else {
        (None, i.1)
    };
    match a.0 {
        Some(found) => Step { outcome: Ok(found), after: a.1 },
        None => match i.0 {
            Some(found) => Step { outcome: Ok(found), after: i.1 },
            None => match d.0 {
                Some(found) => Step { outcome: Ok(found), after: d.1 },
                None => Step { outcome: Err(StepError::NoDecoder), after: d.1 },
            },
        },
    }
}

/// One step of decoding. First every kind is searched for a format that is certain:
/// archives, then images, then compression formats; the first such format decides.
/// Only where no format of any kind is certain are the kinds searched again, in the
/// same order, for a format that is possible and decodes the source. A kind whose
/// first certain format is the one that is not allowed is not searched again, and
/// inside an archive the archive formats are not searched for a possible one.
pub open spec fn stepped(v: FileDataView, disk: Disk, disallow: Option<Decoder>, in_archive: bool) -> Step {
    let a = certain_pass(v, disk, archive_registry(), 0, disallow);
    let i = certain_pass(a.1, disk, image_registry(), 0, disallow);
    let d = certain_pass(i.1, disk, data_registry(), 0, disallow);
    match a.0 {
        Some(Err(e)) => Step { outcome: Err(e), after: a.1 },
        Some(Ok(Some(found))) => Step { outcome: Ok(found), after: a.1 },
        _ => match i.0 {
            Some(Err(e)) => Step { outcome: Err(e), after: i.1 },
            Some(Ok(Some(found))) => Step { outcome: Ok(found), after: i.1 },
            _ => match d.0 {
                Some(Err(e)) => Step { outcome: Err(e), after: d.1 },
                Some(Ok(Some(found))) => Step { outcome: Ok(found), after: d.1 },
                _ => guessed(d.1, disk, disallow, a.0 is None && !in_archive, i.0 is None, d.0 is None),
            },
        },
    }
}

/// The view of what a search returned.
pub open spec fn search_outcome(r: Result<Option<(Decoder, DynData)>, StepError>) -> Result<
    Option<(Decoder, DynDataView)>,
    StepError,
> {
    match r {
        Ok(Some(found)) => Ok(Some((found.0, found.1@))),
        Ok(None) => Ok(None),
        Err(e) => Err(e),
    }
}

/// The view of what a step returned.
pub open spec fn step_outcome(r: Result<(Decoder, DynData), StepError>) -> Result<
    (Decoder, DynDataView),
    StepError,
> {
    match r {
        Ok(found) => Ok((found.0, found.1@)),
        Err(e) => Err(e),
    }
}

/// The view of what a search for a format that is certain returned.
pub open spec fn certain_outcome(r: Option<Result<Option<(Decoder, DynData)>, StepError>>) -> Option<
    Result<Option<(Decoder, DynDataView)>, StepError>,
> {
    match r {
        Some(found) => Some(search_outcome(found)),
        None => None,
    }
}

/// The view of what a search for a format that is possible returned.
pub open spec fn possible_outcome(r: Option<(Decoder, DynData)>) -> Option<(Decoder, DynDataView)> {
    match r {
        Some(found) => Some((found.0, found.1@)),
        None => None,
    }
}

/// Whether two formats that may be absent are the same.
fn same(d: Decoder, other: Option<Decoder>) -> (r: bool)
    ensures
        r == (Some(d) == other),
{
    match other {
        Some(o) => d == o,
        None => false,
    }
}

/// Searches the formats of one kind for one that is certain of the source: `None`
/// where none is, `Some(Ok(None))` where the first that is certain is not allowed.
#[verifier::loop_isolation(false)]
pub fn certain_step(data: &mut FileData, disk: &Disk, decoders: &[Decoder], disallow: Option<Decoder>) -> (r:
    Option<Result<Option<(Decoder, DynData)>, StepError>>)
    ensures
        certain_outcome(r) == certain_pass(old(data)@, *disk, decoders@, 0, disallow).0,
        final(data)@ == certain_pass(old(data)@, *disk, decoders@, 0, disallow).1,
        r matches Some(Ok(Some(found))) ==> Some(found.0) != disallow,
        r matches Some(Ok(Some(found))) ==> (found.1 matches DynData::Image(image) ==> image.wf()),
{
    let mut i: usize = 0;
    while i < decoders.len()
        invariant
            i <= decoders@.len(),
            certain_pass(data@, *disk, decoders@, i as int, disallow) == certain_pass(
                old(data)@,
                *disk,
                decoders@,
                0,
                disallow,
            ),
        decreases decoders@.len() - i,
    {
        let d: Decoder = decoders[i];
        if d.detect(data, disk) == Certainty::Certain {
            if same(d, disallow) {
                return Some(Ok(None));
            }
            return Some(
                match d.decode(data, disk) {
                    Ok(found) => Ok(Some((d, found))),
                    Err(cause) => Err(StepError::Failed { decoder: d, cause }),
                },
            );
        }
        i += 1;
    }
    None
}

/// Searches the formats of one kind for the first allowed one that is possible and
/// decodes the source.
#[verifier::loop_isolation(false)]
pub fn possible_step(data: &mut FileData, disk: &Disk, decoders: &[Decoder], disallow: Option<Decoder>) -> (r:
    Option<(Decoder, DynData)>)
    ensures
        possible_outcome(r) == possible_pass(old(data)@, *disk, decoders@, 0, disallow).0,
        final(data)@ == possible_pass(old(data)@, *disk, decoders@, 0, disallow).1,
        r matches Some(found) ==> Some(found.0) != disallow,
        r matches Some(found) ==> (found.1 matches DynData::Image(image) ==> image.wf()),
{
    let mut i: usize = 0;
    while i < decoders.len()
        invariant
            i <= decoders@.len(),
            possible_pass(data@, *disk, decoders@, i as int, disallow) == possible_pass(
                old(data)@,
                *disk,
                decoders@,
                0,
                disallow,
            ),
        decreases decoders@.len() - i,
    {
        let d: Decoder = decoders[i];
        if !same(d, disallow) {
            if d.detect(data, disk) == Certainty::Possible {
                match d.decode(data, disk) {
                    Ok(found) => {
                        return Some((d, found));
                    },
                    Err(_) => {},
                }
            }
        }
        i += 1;
    }
    None
}

/// Searches the formats of one kind alone for one that takes the source: first for one
/// that is certain, then, unless low confidence is to be discarded, for one that is
/// possible.
pub fn decode_step(
    data: &mut FileData,
    disk: &Disk,
    decoders: &[Decoder],
    disallow: Option<Decoder>,
    discard_low_confidence: bool,
) -> (r: Result<Option<(Decoder, DynData)>, StepError>)
    ensures
        search_outcome(r) == searched(
            old(data)@,
            *disk,
            decoders@,
            disallow,
            discard_low_confidence,
        ).found,
        final(data)@ == searched(
            old(data)@,
            *disk,
            decoders@,
            disallow,
            discard_low_confidence,
        ).after,
        r matches Ok(Some(found)) ==> Some(found.0) != disallow,
        r matches Ok(Some(found)) ==> (found.1 matches DynData::Image(image) ==> image.wf()),
{
    match certain_step(data, disk, decoders, disallow) {
        Some(found) => found,
        None => if discard_low_confidence {
            Ok(None)
        } else {
            Ok(possible_step(data, disk, decoders, disallow))
        },
    }
}

/// Takes one step of decoding.
pub fn auto_decode_step(
    data: &mut FileData,
    disk: &Disk,
    disallow_id: Option<Decoder>,
    in_archive: Option<Decoder>,
) -> (r: Result<(Decoder, DynData), StepError>)
    ensures
        step_outcome(r) == stepped(old(data)@, *disk, disallow_id, in_archive is Some).outcome,
        final(data)@ == stepped(old(data)@, *disk, disallow_id, in_archive is Some).after,
        r matches Ok(found) ==> Some(found.0) != disallow_id,
        r matches Ok(found) ==> (found.1 matches DynData::Image(image) ==> image.wf()),
{
    let archives: Vec<Decoder> = archive_decoders();
    let images: Vec<Decoder> = image_decoders();
    let compressions: Vec<Decoder> = data_decoders();
    let archives_open: bool = match certain_step(data, disk, archives.as_slice(), disallow_id) {
        Some(Err(e)) => {
            return Err(e);
        },
        Some(Ok(Some(found))) => {
            return Ok(found);
        },
        Some(Ok(None)) => false,
        None => true,
    };
    let images_open: bool = match certain_step(data, disk, images.as_slice(), disallow_id) {
        Some(Err(e)) => {
            return Err(e);
        },
        Some(Ok(Some(found))) => {
            return Ok(found);
        },
        Some(Ok(None)) => false,
        None => true,
    };
    let compressions_open: bool = match certain_step(
        data,
        disk,
        compressions.as_slice(),
        disallow_id,
    ) {
        Some(Err(e)) => {
            return Err(e);
        },
        Some(Ok(Some(found))) => {
            return Ok(found);
        },
        Some(Ok(None)) => false,
        None => true,
    };
    if archives_open && in_archive.is_none() {
        match possible_step(data, disk, archives.as_slice(), disallow_id) {
            Some(found) => {
                return Ok(found);
            },
            None => {},
        }
    }
    if images_open {
        match possible_step(data, disk, images.as_slice(), disallow_id) {
            Some(found) => {
                return Ok(found);
            },
            None => {},
        }
    }
    if compressions_open {
        match possible_step(data, disk, compressions.as_slice(), disallow_id) {
            Some(found) => {
                return Ok(found);
            },
            None => {},
        }
    }
    Err(StepError::NoDecoder)
}

/// What decoding a source as far as it goes gave.
#[derive(Clone, Debug, PartialEq, Eq)]
pub struct DecodeResult {
    /// An archive or an image, or the bytes that could not be decoded further.
    pub data: DynData,
    /// The formats of the steps that were taken, in their order.
    pub steps_taken: Vec<Decoder>,
    /// Why decoding stopped at bytes; `None` where it reached an archive or an image.
    pub error: Option<StepError>,
}

/// What decoding a source as far as it goes gave, with views for what it holds.
pub struct DecodeResultView {
    pub data: DynDataView,
    pub steps_taken: Seq<Decoder>,
    pub error: Option<StepError>,
}

impl DecodeResult {
    /// The message of the failure that stopped the decoding; empty where none did.
    pub fn error_msg(&self) -> (r: String)
        ensures
            r@ == (match self.error {
                Some(e) => e.text(),
                None => Seq::<char>::empty(),
            }),
    {
        match self.error {
            Some(e) => e.message(),
            None => String::new(),
        }
    }
}

impl View for DecodeResult {
    type V = DecodeResultView;

    open spec fn view(&self) -> DecodeResultView {
        DecodeResultView { data: self.data@, steps_taken: self.steps_taken@, error: self.error }
    }
}

/// The format of the last step, if any step was taken.
pub open spec fn last_step(steps: Seq<Decoder>) -> Option<Decoder> {
    if steps.len() == 0 {
        None
    } else {
        Some(steps[steps.len() - 1])
    }
}

/// What decoding the source `v` as far as it goes gives, after the steps `steps`
/// and with `fuel` steps left. Each step must not be of the format of the step before it.
/// Bytes are decoded further; an archive or an image ends the decoding, and so does a
/// step that gives nothing, which leaves the bytes reached so far.
pub open spec fn decoded_fully(
    v: FileDataView,
    disk: Disk,
    in_archive: bool,
    steps: Seq<Decoder>,
    fuel: nat,
) -> DecodeResultView
    decreases fuel,
{
    let step = stepped(v, disk, last_step(steps), in_archive);
    if fuel == 0 {
        DecodeResultView {
            data: DynDataView::Raw(v),
            steps_taken: steps,
            error: Some(StepError::TooManySteps),
        }
    } else {
        match step.outcome {
            Err(e) => DecodeResultView {
                data: DynDataView::Raw(step.after),
                steps_taken: steps,
                error: Some(e),
            },
            Ok((d, DynDataView::Raw(next))) => decoded_fully(
                next,
                disk,
                in_archive,
                steps.push(d),
                (fuel - 1) as nat,
            ),
            Ok((d, data)) => DecodeResultView { data, steps_taken: steps.push(d), error: None },
        }
    }
}

/// Whether no two steps in a row are of the same format.
pub open spec fn no_repeat(steps: Seq<Decoder>) -> bool {
    forall|i: int| 0 <= i < steps.len() - 1 ==> steps[i] != #[trigger] steps[i + 1]
}

/// Decodes a source as far as it goes: step by step, until a step gives an archive or
/// an image, or gives nothing.
pub fn auto_decode_full(initial_data: &mut FileData, disk: &Disk, in_archive: Option<Decoder>) -> (r:
    DecodeResult)
    ensures
        r@ == decoded_fully(old(initial_data)@, *disk, in_archive is Some, Seq::empty(), MAX_STEPS as nat),
        final(initial_data)@ == stepped(old(initial_data)@, *disk, None, in_archive is Some).after,
        no_repeat(r.steps_taken@),
        r.data matches DynData::Image(image) ==> image.wf(),
{
    let mut steps_taken: Vec<Decoder> = Vec::new();
    let mut cur_data: FileData = match auto_decode_step(initial_data, disk, None, in_archive) {
        Ok((d, DynData::Raw(next))) => {
            steps_taken.push(d);
            next
        },
        Ok((d, data)) => {
            steps_taken.push(d);
            return DecodeResult { data, steps_taken, error: None };
        },
        Err(e) => {
            return DecodeResult {
                data: DynData::Raw(initial_data.duplicate()),
                steps_taken,
                error: Some(e),
            };
        },
    };
    assert(steps_taken@ =~= Seq::<Decoder>::empty().push(steps_taken@[0]));
    let mut fuel: usize = MAX_STEPS - 1;
    while fuel > 0
        invariant
            steps_taken@.len() > 0,
            no_repeat(steps_taken@),
            initial_data@ == stepped(old(initial_data)@, *disk, None, in_archive is Some).after,
            decoded_fully(cur_data@, *disk, in_archive is Some, steps_taken@, fuel as nat)
                == decoded_fully(
                old(initial_data)@,
                *disk,
                in_archive is Some,
                Seq::empty(),
                MAX_STEPS as nat,
            ),
        decreases fuel,
    {
        let last: Decoder = steps_taken[steps_taken.len() - 1];
        match auto_decode_step(&mut cur_data, disk, Some(last), in_archive) {
            Ok((d, DynData::Raw(next))) => {
                steps_taken.push(d);
                cur_data = next;
            },
            Ok((d, data)) => {
                steps_taken.push(d);
                return DecodeResult { data, steps_taken, error: None };
            },
            Err(e) => {
                return DecodeResult { data: DynData::Raw(cur_data), steps_taken, error: Some(e) };
            },
        }
        fuel -= 1;
    }
    DecodeResult {
        data: DynData::Raw(cur_data),
        steps_taken,
        error: Some(StepError::TooManySteps),
    }
}

/// A search for a format that is certain takes no source with the format that is not allowed.
pub proof fn lemma_certain_pass_allowed(
    v: FileDataView,
    disk: Disk,
    decoders: Seq<Decoder>,
    i: int,
    disallow: Option<Decoder>,
)
    ensures
        certain_pass(v, disk, decoders, i, disallow).0 matches Some(Ok(Some(found))) ==> Some(
            found.0,
        ) != disallow,
    decreases decoders.len() - i,
{
    if 0 <= i < decoders.len() {
        let d = decoders[i];
        if d.detected(v, disk) != Certainty::Certain {
            lemma_certain_pass_allowed(d.after_detect(v, disk), disk, decoders, i + 1, disallow);
        }
    }
}

/// A search for a format that is possible takes no source with the format that is not allowed.
pub proof fn lemma_possible_pass_allowed(
    v: FileDataView,
    disk: Disk,
    decoders: Seq<Decoder>,
    i: int,
    disallow: Option<Decoder>,
)
    ensures
        possible_pass(v, disk, decoders, i, disallow).0 matches Some(found) ==> Some(found.0)
            != disallow,
    decreases decoders.len() - i,
{
    if 0 <= i < decoders.len() {
        let d = decoders[i];
        let probed = d.after_detect(v, disk);
        if Some(d) == disallow {
            lemma_possible_pass_allowed(v, disk, decoders, i + 1, disallow);
        } else if d.detected(v, disk) == Certainty::Possible {
            if d.decoded(probed, disk) is Err {
                lemma_possible_pass_allowed(
                    d.after_decode(probed, disk),
                    disk,
                    decoders,
                    i + 1,
                    disallow,
                );
            }
        } else {
            lemma_possible_pass_allowed(probed, disk, decoders, i + 1, disallow);
        }
    }
}

/// No step is of the format that is not allowed: a format never decodes what it has
/// just decoded to.
pub proof fn lemma_step_allowed(
    v: FileDataView,
    disk: Disk,
    disallow: Option<Decoder>,
    in_archive: bool,
)
    ensures
        stepped(v, disk, disallow, in_archive).outcome matches Ok(found) ==> Some(found.0)
            != disallow,
{
    let a = certain_pass(v, disk, archive_registry(), 0, disallow);
    let i = certain_pass(a.1, disk, image_registry(), 0, disallow);
    let d = certain_pass(i.1, disk, data_registry(), 0, disallow);
    lemma_certain_pass_allowed(v, disk, archive_registry(), 0, disallow);
    lemma_certain_pass_allowed(a.1, disk, image_registry(), 0, disallow);
    lemma_certain_pass_allowed(i.1, disk, data_registry(), 0, disallow);
    let pa = possible_pass(d.1, disk, archive_registry(), 0, disallow);
    lemma_possible_pass_allowed(d.1, disk, archive_registry(), 0, disallow);
    lemma_possible_pass_allowed(pa.1, disk, image_registry(), 0, disallow);
    lemma_possible_pass_allowed(d.1, disk, image_registry(), 0, disallow);
    let pi = possible_pass(pa.1, disk, image_registry(), 0, disallow);
    let qi = possible_pass(d.1, disk, image_registry(), 0, disallow);
    lemma_possible_pass_allowed(pi.1, disk, data_registry(), 0, disallow);
    lemma_possible_pass_allowed(qi.1, disk, data_registry(), 0, disallow);
    lemma_possible_pass_allowed(pa.1, disk, data_registry(), 0, disallow);
    lemma_possible_pass_allowed(d.1, disk, data_registry(), 0, disallow);
}

/// A format that is certain of a source is taken before any that is only possible:
/// where no archive format is certain, an image format that is certain decides the
/// step, whatever archive format is possible; and where no archive or image format is
/// certain, a compression format that is certain decides it.
pub proof fn lemma_certain_before_possible(
    v: FileDataView,
    disk: Disk,
    disallow: Option<Decoder>,
    in_archive: bool,
)
    requires
        certain_pass(v, disk, archive_registry(), 0, disallow).0 is None,
    ensures
        ({
            let a = certain_pass(v, disk, archive_registry(), 0, disallow);
            let i = certain_pass(a.1, disk, image_registry(), 0, disallow);
            let d = certain_pass(i.1, disk, data_registry(), 0, disallow);
            let step = stepped(v, disk, disallow, in_archive).outcome;
            match i.0 {
                Some(Ok(Some(found))) => step == Ok::<(Decoder, DynDataView), StepError>(found),
                Some(Err(e)) => step == Err::<(Decoder, DynDataView), StepError>(e),
                Some(Ok(None)) => true,
                None => match d.0 {
                    Some(Ok(Some(found))) => step == Ok::<(Decoder, DynDataView), StepError>(found),
                    Some(Err(e)) => step == Err::<(Decoder, DynDataView), StepError>(e),
                    _ => true,
                },
            }
        }),
{
}

/// An archive ends the decoding at once: where an archive format is certain of a
/// source and decodes it, decoding the source as far as it goes gives that archive
/// after that one step, without a failure, and what the archive holds is not decoded.
/// This holds of a source of any kind, in memory, streamed or compressed, inside an
/// archive or not.
pub proof fn lemma_archive_ends_decoding(
    v: FileDataView,
    disk: Disk,
    in_archive: bool,
    d: Decoder,
    archive: ArchiveView,
)
    requires
        certain_pass(v, disk, archive_registry(), 0, None).0 == Some(
            Ok::<Option<(Decoder, DynDataView)>, StepError>(Some((d, DynDataView::Archive(archive)))),
        ),
    ensures
        decoded_fully(v, disk, in_archive, Seq::empty(), MAX_STEPS as nat) == (DecodeResultView {
            data: DynDataView::Archive(archive),
            steps_taken: seq![d],
            error: None,
        }),
{
    assert(Seq::<Decoder>::empty().push(d) =~= seq![d]);
    assert(last_step(Seq::<Decoder>::empty()) == None::<Decoder>);
}

/// A source that starts with the signature of an AFS archive and decodes as one is
/// decoded in one step, to that archive.
pub proof fn lemma_afs_is_decoded_in_one_step(v: FileDataView, disk: Disk, in_archive: bool)
    requires
        afs_detected(v, disk) == Certainty::Certain,
        afs_decoded(v, disk) is Ok,
    ensures
        decoded_fully(v, disk, in_archive, Seq::empty(), MAX_STEPS as nat) == (DecodeResultView {
            data: DynDataView::Archive(afs_decoded(v, disk)->Ok_0),
            steps_taken: seq![Decoder::Afs],
            error: None,
        }),
{
    reveal(Decoder::detected);
    reveal(Decoder::after_detect);
    reveal(Decoder::decoded);
    assert(archive_registry()[0] == Decoder::Afs);
    lemma_archive_ends_decoding(v, disk, in_archive, Decoder::Afs, afs_decoded(v, disk)->Ok_0);
}

/// A source that starts with the signature of an LNK archive and decodes as one is
/// decoded in one step, to that archive.
pub proof fn lemma_lnk_is_decoded_in_one_step(v: FileDataView, disk: Disk, in_archive: bool)
    requires
        lnk_detected(v, disk) == Certainty::Certain,
        lnk_decoded(v, disk) is Ok,
    ensures
        decoded_fully(v, disk, in_archive, Seq::empty(), MAX_STEPS as nat) == (DecodeResultView {
            data: DynDataView::Archive(lnk_decoded(v, disk)->Ok_0),
            steps_taken: seq![Decoder::Lnk],
            error: None,
        }),
{
    lemma_lnk_is_second(v, disk);
    let found = (Decoder::Lnk, DynDataView::Archive(lnk_decoded(v, disk)->Ok_0));
    assert(archive_registry()[0] == Decoder::Afs);
    assert(archive_registry()[1] == Decoder::Lnk);
    assert(certain_pass(v, disk, archive_registry(), 1, None).0 == Some(
        Ok::<Option<(Decoder, DynDataView)>, StepError>(Some(found)),
    ));
    assert(certain_pass(v, disk, archive_registry(), 0, None) == certain_pass(
        v,
        disk,
        archive_registry(),
        1,
        None,
    ));
    lemma_archive_ends_decoding(v, disk, in_archive, Decoder::Lnk, lnk_decoded(v, disk)->Ok_0);
}

/// Of a source that starts with the signature of an LNK archive the format before it
/// is not certain, and leaves the source as it is.
proof fn lemma_lnk_is_second(v: FileDataView, disk: Disk)
    requires
        lnk_detected(v, disk) == Certainty::Certain,
    ensures
        Decoder::Afs.detected(v, disk) != Certainty::Certain,
        Decoder::Afs.after_detect(v, disk) == v,
        Decoder::Lnk.detected(v, disk) == Certainty::Certain,
        Decoder::Lnk.after_detect(v, disk) == v,
        Decoder::Lnk.decoded(v, disk) == crate::registry::archive_view(lnk_decoded(v, disk)),
{
    reveal(Decoder::detected);
    reveal(Decoder::after_detect);
    reveal(Decoder::decoded);
    let lnk = seq![0x4Cu8, 0x4Eu8, 0x4Bu8, 0u8];
    let afs = seq![0x41u8, 0x46u8, 0x53u8, 0u8];
    assert(lnk[0] != afs[0]);
}

/// The formats that are told by a guess are never certain of any source, and so
/// never certain of what they have decoded to.
pub proof fn lemma_guess_never_certain(d: Decoder, v: FileDataView, disk: Disk)
    requires
        d == Decoder::Lzss || d == Decoder::Concat2k,
    ensures
        d.detected(v, disk) != Certainty::Certain,
{
    reveal(Decoder::detected);
}

/// What a format has decoded it is not certain of, for every format but three: a
/// stream of `Cps`, `CpsPc` or `LzssBe` may unpack to bytes that again start as such a
/// stream does. Archives and images are no bytes to tell a format of, and the formats
/// that are told by a guess are certain of nothing.
pub proof fn lemma_decoded_not_certain(d: Decoder, v: FileDataView, disk: Disk)
    requires
        d != Decoder::Cps,
        d != Decoder::CpsPc,
        d != Decoder::LzssBe,
    ensures
        d.decoded(v, disk) matches Ok(DynDataView::Raw(out)) ==> d.detected(out, disk)
            != Certainty::Certain,
{
    reveal(Decoder::detected);
    reveal(Decoder::decoded);
    reveal(Decoder::decoded_bytes);
}

} // verus!
