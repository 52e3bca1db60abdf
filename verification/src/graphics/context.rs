use gfx_hal::format::{ChannelType, BASE_FORMATS};
use vstd::prelude::*;

verus! {

/// An image format of the graphics device, by its position in the graphics
/// library's format table (the format's number minus one).
pub type FormatCode = u32;

/// Number of formats in the graphics library's format table.
pub const FORMAT_COUNT: u32 = 184;

/// The `Rgba8Srgb` format: 8-bit red, green, blue and alpha channels,
/// SRGB-encoded.
pub const RGBA8_SRGB: FormatCode = 42;

/// The `Bgra8Unorm` format: 8-bit blue, green, red and alpha channels,
/// unsigned and normalized.
pub const BGRA8_UNORM: FormatCode = 43;

/// How the channels of an image format are interpreted.
#[derive(Clone, Copy, PartialEq, Eq, Debug, Structural)]
pub enum Channel {
    Unorm,
    Snorm,
    Uint,
    Sint,
    Ufloat,
    Sfloat,
    Uscaled,
    Sscaled,
    Srgb,
}

/// The channel type of the format at position `code` of the graphics
/// library's format table.
pub uninterp spec fn format_channel(code: FormatCode) -> Channel;

/// The channel type of the format at position `code`, or `None` when the
/// table has no such position.
///
/// Looks the position up in the graphics library's `BASE_FORMATS` table and
/// converts the channel type of the base format found there.
#[verifier::external_body]
pub fn channel_of(code: FormatCode) -> (channel: Option<Channel>)
    ensures
        channel is Some <==> code < FORMAT_COUNT,
        channel matches Some(c) ==> c == format_channel(code),
{
    match BASE_FORMATS.get(code as usize) {
        Some(base) => Some(match base.1 {
            ChannelType::Unorm => Channel::Unorm,
            ChannelType::Snorm => Channel::Snorm,
            ChannelType::Uint => Channel::Uint,
            ChannelType::Sint => Channel::Sint,
            ChannelType::Ufloat => Channel::Ufloat,
            ChannelType::Sfloat => Channel::Sfloat,
            ChannelType::Uscaled => Channel::Uscaled,
            ChannelType::Sscaled => Channel::Sscaled,
            ChannelType::Srgb => Channel::Srgb,
        }),
        None => None,
    }
}

/// Whether the channels of the format `code` are SRGB-encoded.
pub open spec fn srgb_channel(code: FormatCode) -> bool {
    format_channel(code) == Channel::Srgb
}

/// Whether the channels of the format `code` are SRGB-encoded.
pub fn format_is_srgb(code: FormatCode) -> (srgb: bool)
    requires
        code < FORMAT_COUNT,
    ensures
        srgb == srgb_channel(code),
{
    match channel_of(code) {
        Some(channel) => channel == Channel::Srgb,
        None => false,
    }
}

/// Whether every code of `list` is a format of the table.
pub open spec fn all_known(list: Seq<FormatCode>) -> bool {
    forall|i: int| 0 <= i < list.len() ==> list[i] < FORMAT_COUNT
}

/// Whether `format` is the one to choose among the surface formats `list`:
/// the first SRGB format of the list, or its first format when none is SRGB.
pub open spec fn is_format_choice(list: Seq<FormatCode>, format: FormatCode) -> bool {
    if exists|i: int| #![trigger list[i]] 0 <= i < list.len() && srgb_channel(list[i]) {
        exists|i: int|
            #![trigger list[i]]
            0 <= i < list.len() && format == list[i] && srgb_channel(list[i]) && forall|j: int|
                0 <= j < i ==> !srgb_channel(list[j])
    } else {
        format == list[0]
    }
}

/// Selects the image format for a surface that supports `formats` (`None`
/// when it supports any).
///
/// The first SRGB format is preferred, then the first listed format. When any
/// format is supported, `Rgba8Srgb` is used.
pub fn select_format(formats: Option<Vec<FormatCode>>) -> (format: FormatCode)
    requires
        formats matches Some(list) ==> list@.len() > 0 && all_known(list@),
    ensures
        formats is None ==> format == RGBA8_SRGB,
        formats matches Some(list) ==> is_format_choice(list@, format),
{
    match formats {
        None => RGBA8_SRGB,
        Some(list) => {
            let f: FormatCode = match first_srgb(&list) {
                Some(i) => list[i],
                None => list[0],
            };
            assert(is_format_choice(list@, f));
            f
        },
    }
}

/// Index of the first SRGB format of `list`, if it has one.
fn first_srgb(list: &Vec<FormatCode>) -> (index: Option<usize>)
    requires
        all_known(list@),
    ensures
        index matches Some(i) ==> i < list@.len() && srgb_channel(list@[i as int]) && forall|j: int|
            0 <= j < i ==> !srgb_channel(list@[j]),
        index is None ==> forall|j: int| 0 <= j < list@.len() ==> !srgb_channel(list@[j]),
{
    let mut i: usize = 0;
    while i < list.len()
        invariant
            i <= list@.len(),
            all_known(list@),
            forall|j: int| 0 <= j < i ==> !srgb_channel(list@[j]),
        decreases list@.len() - i,
    {
        if format_is_srgb(list[i]) {
            return Some(i);
        }
        i = i + 1;
    }
    None
}

/// Score of a graphics adapter: discrete GPUs are preferred.
pub fn adapter_score(discrete: bool) -> (score: u32)
    ensures
        score == (if discrete {
            1000u32
        } else {
            0u32
        }),
{
    if discrete {
        1000
    } else {
        0
    }
}

/// Selects the adapter to render with among adapters that are (or are not)
/// discrete GPUs, listed in the order the system enumerates them.
///
/// Adapters are ranked by score, keeping the enumeration order among equal
/// scores, and the best one is taken: the first discrete GPU, or the first
/// adapter when there is none. There is no adapter to select from an empty
/// list.
pub fn select_adapter(discrete: &Vec<bool>) -> (selected: Option<usize>)
    ensures
        discrete@.len() == 0 <==> selected is None,
        selected matches Some(i) ==> {
            &&& i < discrete@.len()
            &&& forall|j: int| 0 <= j < i ==> !discrete@[j]
            &&& discrete@[i as int] || (i == 0 && forall|j: int| 0 <= j < discrete@.len() ==> !discrete@[j])
        },
{
    if discrete.len() == 0 {
        return None;
    }
    let mut best: usize = 0;
    let mut best_score: u32 = adapter_score(discrete[0]);
    let mut i: usize = 1;
    while i < discrete.len()
        invariant
            0 < i <= discrete@.len(),
            best < i,
            best_score == (if discrete@[best as int] {
                1000u32
            } else {
                0u32
            }),
            forall|j: int| 0 <= j < best ==> !discrete@[j],
            discrete@[best as int] || (best == 0 && forall|j: int| 0 <= j < i ==> !discrete@[j]),
        decreases discrete@.len() - i,
    {
        let score: u32 = adapter_score(discrete[i]);
        if score > best_score {
            best = i;
            best_score = score;
        }
        i = i + 1;
    }
    Some(best)
}

/// Why no queue families could be selected.
#[derive(Clone, Copy, PartialEq, Eq, Debug, Structural)]
pub enum QueueSelectionError {
    /// No queue family supports graphics.
    NoGraphicsQueue,
    /// No queue family can present to the surface.
    NoPresentQueue,
}

/// Selects the queue families for graphics and for presentation among the
/// adapter's families, given which of them support graphics and which can
/// present to the surface: the last family that supports each.
pub fn select_queue_families(graphics: &Vec<bool>, present: &Vec<bool>) -> (selected: Result<
    (usize, usize),
    QueueSelectionError,
>)
    requires
        graphics@.len() == present@.len(),
    ensures
        selected == Err::<(usize, usize), _>(QueueSelectionError::NoGraphicsQueue) <==> !graphics@.contains(true),
        selected == Err::<(usize, usize), _>(QueueSelectionError::NoPresentQueue) <==> (graphics@.contains(true)
            && !present@.contains(true)),
        selected matches Ok((g, p)) ==> {
            &&& g < graphics@.len() && graphics@[g as int]
            &&& forall|j: int| g < j < graphics@.len() ==> !graphics@[j]
            &&& p < present@.len() && present@[p as int]
            &&& forall|j: int| p < j < present@.len() ==> !present@[j]
        },
{
    let mut graphics_family: Option<usize> = None;
    let mut present_family: Option<usize> = None;
    let mut i: usize = 0;
    while i < graphics.len()
        invariant
            i <= graphics@.len(),
            graphics@.len() == present@.len(),
            graphics_family is None <==> forall|j: int| 0 <= j < i ==> !graphics@[j],
            graphics_family matches Some(g) ==> g < i && graphics@[g as int] && forall|j: int|
                g < j < i ==> !graphics@[j],
            present_family is None <==> forall|j: int| 0 <= j < i ==> !present@[j],
            present_family matches Some(p) ==> p < i && present@[p as int] && forall|j: int|
                p < j < i ==> !present@[j],
        decreases graphics@.len() - i,
    {
        if graphics[i] {
            graphics_family = Some(i);
        }
        if present[i] {
            present_family = Some(i);
        }
        i = i + 1;
    }
    match graphics_family {
        None => {
            proof {
                assert(!graphics@.contains(true));
            }
            Err(QueueSelectionError::NoGraphicsQueue)
        },
        Some(g) => {
            proof {
                assert(graphics@[g as int] == true);
            }
            match present_family {
                None => {
                    proof {
                        assert(!present@.contains(true));
                    }
                    Err(QueueSelectionError::NoPresentQueue)
                },
                Some(p) => {
                    proof {
                        assert(present@[p as int] == true);
                    }
                    Ok((g, p))
                },
            }
        },
    }
}

} // verus!
