//! Decision logic of the clipboard facade and of the image extractor.
//!
//! The platform backends (text providers, the system clipboard surface) are
//! outside collaborators; what is decided here is which backend an operation
//! addresses, when a failed or empty text load falls back to image
//! extraction, which clipboard image format is preferred, and what the
//! caller finally gets back. The callers perform the platform work and hand
//! the observed values in as plain data.

use vstd::prelude::*;
use crate::dib::spec_bmp_file;
use crate::dib::synthesize_file;

verus! {

/// Slot of the system clipboard that an operation addresses.
///
/// `Primary` is the selection buffer that some platforms offer; `General`
/// is the ordinary clipboard. On platforms without a selection buffer,
/// operations on `Primary` are no-ops.
#[derive(Clone, Copy, PartialEq, Eq, Structural, Debug)]
pub enum ClipboardSlot {
    Primary,
    General,
}

/// The backend that a store or load addresses, or `Skip` for the silent
/// no-op of a store into an absent selection buffer.
#[derive(Clone, Copy, PartialEq, Eq, Structural, Debug)]
pub enum BackendRoute {
    SelectionBackend,
    GeneralBackend,
    Skip,
}

/// Source format of an extracted clipboard image: a native image payload
/// that already is a standalone file, or a raw device-independent bitmap
/// that still needs a file header.
#[derive(Clone, Copy, PartialEq, Eq, Structural, Debug)]
pub enum ImageFormat {
    NativeImage,
    DeviceIndependentBitmap,
}

/// The two bitmap clipboard formats a platform may offer: the richer
/// extended-header variant and the legacy one.
#[derive(Clone, Copy, PartialEq, Eq, Structural, Debug)]
pub enum DibFormat {
    Extended,
    Legacy,
}

/// What a text load leads to: a final answer, or an attempt at image
/// extraction.
pub enum LoadDecision {
    Finish(String),
    TryImageFallback,
}

/// The backend a store addresses: the selection buffer only when the slot
/// asks for it and the platform has one; a silent no-op when the slot asks
/// for an absent selection buffer; otherwise the general backend.
pub fn store_route(slot: ClipboardSlot, has_selection: bool) -> (r: BackendRoute)
    ensures
        r == if slot is Primary {
            if has_selection {
                BackendRoute::SelectionBackend
            } else {
                BackendRoute::Skip
            }
        } else {
            BackendRoute::GeneralBackend
        },
{
    match slot {
        ClipboardSlot::Primary => if has_selection {
            BackendRoute::SelectionBackend
        } else {
            BackendRoute::Skip
        },
        ClipboardSlot::General => BackendRoute::GeneralBackend,
    }
}

/// The backend a load reads: the selection buffer when asked for and
/// present, else the general backend. A load is never a no-op.
pub fn load_route(slot: ClipboardSlot, has_selection: bool) -> (r: BackendRoute)
    ensures
        r == if slot is Primary && has_selection {
            BackendRoute::SelectionBackend
        } else {
            BackendRoute::GeneralBackend
        },
{
    match slot {
        ClipboardSlot::Primary => if has_selection {
            BackendRoute::SelectionBackend
        } else {
            BackendRoute::GeneralBackend
        },
        ClipboardSlot::General => BackendRoute::GeneralBackend,
    }
}

/// What a load does with the text the backend gave: nonempty text is the
/// answer; on an error (`None`) or empty text, only the general slot falls
/// back to image extraction, while the selection slot settles for empty
/// text.
pub fn load_text_decision(slot: ClipboardSlot, text: Option<String>) -> (d: LoadDecision)
    ensures
        match text {
            Some(t) => if t@.len() > 0 {
                d matches LoadDecision::Finish(u) && u@ == t@
            } else if slot is General {
                d is TryImageFallback
            } else {
                d matches LoadDecision::Finish(u) && u@.len() == 0
            },
            None => if slot is General {
                d is TryImageFallback
            } else {
                d matches LoadDecision::Finish(u) && u@.len() == 0
            },
        },
{
    match text {
        Some(t) => {
            if !t.as_str().is_empty() {
                LoadDecision::Finish(t)
            } else if matches!(slot, ClipboardSlot::General) {
                LoadDecision::TryImageFallback
            } else {
                LoadDecision::Finish(t)
            }
        },
        None => {
            if matches!(slot, ClipboardSlot::General) {
                LoadDecision::TryImageFallback
            } else {
                LoadDecision::Finish(String::new())
            }
        },
    }
}

/// What a load finally returns once the image fallback has run: the
/// reference string when one was produced, else empty text. No error is
/// ever surfaced.
pub fn image_fallback_outcome(url: Option<String>) -> (r: String)
    ensures
        match url {
            Some(u) => r@ == u@,
            None => r@.len() == 0,
        },
{
    match url {
        Some(u) => u,
        None => String::new(),
    }
}

/// Which bitmap clipboard format to read: the richer extended-header
/// variant when available, else the legacy one, else nothing.
pub fn choose_dib_format(extended_available: bool, legacy_available: bool) -> (r: Option<
    DibFormat,
>)
    ensures
        r == if extended_available {
            Some(DibFormat::Extended)
        } else if legacy_available {
            Some(DibFormat::Legacy)
        } else {
            None::<DibFormat>
        },
{
    if extended_available {
        Some(DibFormat::Extended)
    } else if legacy_available {
        Some(DibFormat::Legacy)
    } else {
        None
    }
}

/// The extension under which an extracted image is persisted.
pub fn extension_for(format: ImageFormat) -> (r: &'static str)
    ensures
        format is NativeImage ==> r@ == "png"@,
        format is DeviceIndependentBitmap ==> r@ == "bmp"@,
{
    match format {
        ImageFormat::NativeImage => "png",
        ImageFormat::DeviceIndependentBitmap => "bmp",
    }
}

/// The standalone image file for what the clipboard offered: a nonempty
/// native payload is taken verbatim; failing that, a well-formed raw
/// bitmap payload gets a synthesized file header; anything else is no
/// image. An empty native payload counts as absent — a zero reported size
/// is a failed retrieval, not an image.
pub open spec fn spec_best_image_file(native: Option<Seq<u8>>, dib: Option<Seq<u8>>) -> Option<
    (ImageFormat, Seq<u8>),
> {
    if native matches Some(b) && b.len() > 0 {
        Some((ImageFormat::NativeImage, native->Some_0))
    } else {
        match dib {
            Some(d) => match spec_bmp_file(d) {
                Some(f) => Some((ImageFormat::DeviceIndependentBitmap, f)),
                None => None,
            },
            None => None,
        }
    }
}

/// The standalone image file made from what the clipboard offered, as
/// [`spec_best_image_file`] says: a nonempty native image payload verbatim,
/// else a synthesized bitmap file, else nothing.
pub fn best_image_file(native: Option<Vec<u8>>, dib: Option<Vec<u8>>) -> (r: Option<
    (ImageFormat, Vec<u8>),
>)
    ensures
        ({
            let expected = spec_best_image_file(
                match native {
                    Some(b) => Some(b@),
                    None => None,
                },
                match dib {
                    Some(d) => Some(d@),
                    None => None,
                },
            );
            match r {
                Some(p) => expected == Some((p.0, p.1@)),
                None => expected is None,
            }
        }),
{
    match native {
        Some(b) => {
            if b.len() > 0 {
                return Some((ImageFormat::NativeImage, b));
            }
        },
        None => (),
    }
    match dib {
        Some(d) => match synthesize_file(d.as_slice()) {
            Some(f) => Some((ImageFormat::DeviceIndependentBitmap, f)),
            None => None,
        },
        None => None,
    }
}

} // verus!
