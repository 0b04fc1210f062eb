use vstd::prelude::*;

use crate::fonts::{font_spec, FontVariants};
use crate::queue::{JobMeta, meta_of, PrintQueue};

verus! {

/// What a submission call answers: the new job id, or the error that refused
/// the request.
pub struct PrintJobResponse {
    pub id: Option<u32>,
    pub error: Option<ApiError>,
}

/// Why a submission is refused, or why printing cannot proceed.
#[derive(Clone, Copy, PartialEq, Eq, Structural, Debug)]
pub enum ApiError {
    PrinterError,
    InvalidImageFile,
    InvalidRequest,
    LengthTooLong,
    QuantityTooHigh,
    QueueTooFull,
    UnknownFont,
}

/// An image submission: the raw uploaded bytes and its options.
pub struct PrintJobImageRequest {
    pub image: Vec<u8>,
    pub quantity: Option<u32>,
    pub rotate: Option<bool>,
    pub dither: Option<bool>,
}

/// A text submission: the text, the paper length limit in millimetres, and
/// its options.
pub struct PrintJobTextRequest {
    pub text: String,
    pub quantity: Option<u32>,
    pub invert: Option<bool>,
    pub length: u32,
    pub rotate: Option<bool>,
    pub font: Option<String>,
}

/// Both partitions of the queue as metadata, for status queries.
pub struct ApiQueueList {
    pub jobs_todo: Vec<JobMeta>,
    pub jobs_finished_or_failed: Vec<JobMeta>,
}

/// The copy count a request asks for; one copy when it says nothing.
pub open spec fn requested_quantity(q: Option<u32>) -> int {
    match q {
        Some(v) => v as int,
        None => 1,
    }
}

/// The font a text request selects; the default face when it names none, and
/// nothing when it names an unknown one.
pub open spec fn chosen_font(req: PrintJobTextRequest) -> Option<FontVariants> {
    match req.font {
        Some(s) => font_spec(s@),
        None => Some(FontVariants::Arial),
    }
}

/// A defaulted optional flag.
pub open spec fn flag_or(o: Option<bool>, default: bool) -> bool {
    match o {
        Some(b) => b,
        None => default,
    }
}

/// Millimetres of paper length as print dots: the head covers 62 mm with 704
/// dots.
pub open spec fn dots_of_mm(mm: int) -> int {
    704 * mm / 62
}

/// Admission rule for a text submission. Checked in order: the font must be
/// known, at most ten copies, at least one copy, at most twenty jobs already
/// waiting, and at most 500 mm of paper. An admitted request yields the
/// layout parameters: font, copies, the length limit in dots, and the flags
/// with their defaults (portrait on, inverted off).
pub open spec fn validate_text_spec(req: PrintJobTextRequest, depth: int) -> Result<
    TextJobParams,
    ApiError,
> {
    match chosen_font(req) {
        None => Err(ApiError::UnknownFont),
        Some(f) => {
            if requested_quantity(req.quantity) > 10 {
                Err(ApiError::QuantityTooHigh)
            } else if requested_quantity(req.quantity) < 1 {
                Err(ApiError::InvalidRequest)
            } else if depth > 20 {
                Err(ApiError::QueueTooFull)
            } else if req.length > 500 {
                Err(ApiError::LengthTooLong)
            } else {
                Ok(
                    TextJobParams {
                        font: f,
                        quantity: requested_quantity(req.quantity) as u32,
                        pixel_length: dots_of_mm(req.length as int) as u32,
                        rotate: flag_or(req.rotate, true),
                        invert: flag_or(req.invert, false),
                    },
                )
            }
        },
    }
}

/// Admission rule for an image submission: at most ten copies, at least one,
/// and at most twenty jobs already waiting. Admission yields the copy count.
pub open spec fn validate_image_spec(quantity: Option<u32>, depth: int) -> Result<u32, ApiError> {
    if requested_quantity(quantity) > 10 {
        Err(ApiError::QuantityTooHigh)
    } else if requested_quantity(quantity) < 1 {
        Err(ApiError::InvalidRequest)
    } else if depth > 20 {
        Err(ApiError::QueueTooFull)
    } else {
        Ok(requested_quantity(quantity) as u32)
    }
}

/// What an admitted text request hands to the layout engine.
#[derive(Clone, Copy, PartialEq, Eq, Structural, Debug)]
pub struct TextJobParams {
    pub font: FontVariants,
    pub quantity: u32,
    pub pixel_length: u32,
    pub rotate: bool,
    pub invert: bool,
}

/// Convert millimetres of paper length to print dots.
pub fn pixel_length(length_mm: u32) -> (r: u32)
    requires
        length_mm <= 500,
    ensures
        r == dots_of_mm(length_mm as int),
{
    (704 * length_mm) / 62
}

/// Admit or refuse a text submission, per `validate_text_spec`.
pub fn validate_text_request(req: &PrintJobTextRequest, depth: usize) -> (r: Result<
    TextJobParams,
    ApiError,
>)
    ensures
        r == validate_text_spec(*req, depth as int),
{
    let font: FontVariants = match &req.font {
        Some(name) => {
            match FontVariants::from_str(name.as_str()) {
                Some(f) => f,
                None => {
                    return Err(ApiError::UnknownFont);
                },
            }
        },
        None => FontVariants::Arial,
    };
    let quantity: u32 = match req.quantity {
        Some(q) => q,
        None => 1,
    };
    if quantity > 10 {
        return Err(ApiError::QuantityTooHigh);
    }
    if quantity < 1 {
        return Err(ApiError::InvalidRequest);
    }
    if depth > 20 {
        return Err(ApiError::QueueTooFull);
    }
    if req.length > 500 {
        return Err(ApiError::LengthTooLong);
    }
    Ok(
        TextJobParams {
            font,
            quantity,
            pixel_length: pixel_length(req.length),
            rotate: match req.rotate {
                Some(b) => b,
                None => true,
            },
            invert: match req.invert {
                Some(b) => b,
                None => false,
            },
        },
    )
}

/// Admit or refuse an image submission, per `validate_image_spec`.
pub fn validate_image_request(quantity: Option<u32>, depth: usize) -> (r: Result<u32, ApiError>)
    ensures
        r == validate_image_spec(quantity, depth as int),
{
    let q: u32 = match quantity {
        Some(v) => v,
        None => 1,
    };
    if q > 10 {
        return Err(ApiError::QuantityTooHigh);
    }
    if q < 1 {
        return Err(ApiError::InvalidRequest);
    }
    if depth > 20 {
        return Err(ApiError::QueueTooFull);
    }
    Ok(q)
}

/// Both partitions of the queue as metadata, in order: what the status
/// endpoint reports.
pub fn get_print_queue(print_queue: &PrintQueue) -> (r: ApiQueueList)
    ensures
        r.jobs_todo@.len() == print_queue.pending().len(),
        forall|i: int|
            0 <= i < r.jobs_todo@.len() ==> (#[trigger] r.jobs_todo@[i]) == meta_of(
                print_queue.pending()[i],
            ),
        r.jobs_finished_or_failed@.len() == print_queue.terminal().len(),
        forall|i: int|
            0 <= i < r.jobs_finished_or_failed@.len() ==> (#[trigger] r.jobs_finished_or_failed@[i])
                == meta_of(print_queue.terminal()[i]),
{
    ApiQueueList {
        jobs_todo: print_queue.snapshot_pending(),
        jobs_finished_or_failed: print_queue.snapshot_terminal(),
    }
}

/// Look one job up by id, pending partition first.
pub fn get_print_job(id: u32, print_queue: &PrintQueue) -> (r: Option<JobMeta>)
    requires
        print_queue.wf(),
    ensures
        r is Some <==> print_queue.has_id(id),
        r matches Some(m) ==> m.id == id && ((exists|i: int|
            0 <= i < print_queue.pending().len() && (#[trigger] print_queue.pending()[i]).id == id
                && m == meta_of(print_queue.pending()[i])) || (exists|i: int|
            0 <= i < print_queue.terminal().len() && (#[trigger] print_queue.terminal()[i]).id
                == id && m == meta_of(print_queue.terminal()[i]))),
{
    print_queue.lookup(id)
}

/// The liveness probe at the service root.
pub fn index() -> (r: &'static str)
    ensures
        r@ == "Hello, world!"@,
{
    "Hello, world!"
}

} // verus!
