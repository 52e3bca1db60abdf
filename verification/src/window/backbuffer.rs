use vstd::prelude::*;

verus! {

/// System that acquires the window's next backbuffer image before a frame is
/// rendered.
#[derive(Clone, Copy, Debug, Default)]
pub struct AcquireBackbuffer;

/// System that presents the acquired backbuffer image after a frame is
/// rendered.
#[derive(Clone, Copy, Debug, Default)]
pub struct PresentBackbuffer;

/// Creates the system that acquires backbuffer images.
pub fn acquire_backbuffer() -> (s: AcquireBackbuffer)
    ensures
        s == AcquireBackbuffer,
{
    AcquireBackbuffer
}

/// Creates the system that presents backbuffer images.
pub fn present_backbuffer() -> (s: PresentBackbuffer)
    ensures
        s == PresentBackbuffer,
{
    PresentBackbuffer
}

/// The queue family a backbuffer presents with: the first family, in the
/// device's order, that can present to the window's surface.
pub fn select_present_family(supports_present: &Vec<bool>) -> (family: Option<usize>)
    ensures
        family is None <==> !supports_present@.contains(true),
        family matches Some(i) ==> i < supports_present@.len() && supports_present@[i as int] && forall|j: int|
            0 <= j < i ==> !supports_present@[j],
{
    let mut i: usize = 0;
    while i < supports_present.len()
        invariant
            i <= supports_present@.len(),
            forall|j: int| 0 <= j < i ==> !supports_present@[j],
        decreases supports_present@.len() - i,
    {
        if supports_present[i] {
            return Some(i);
        }
        i = i + 1;
    }
    None
}

/// Why a swapchain could not give an image.
#[derive(Clone, Copy, PartialEq, Eq, Debug, Structural)]
pub enum AcquireError {
    /// No image was ready in time.
    NotReady,
    /// The swapchain no longer matches the surface and must be re-created.
    OutOfDate,
    /// The surface is gone; no swapchain can be made for it.
    SurfaceLost,
}

/// What to do after an attempt to acquire an image.
#[derive(Clone, Copy, PartialEq, Eq, Debug, Structural)]
pub enum AcquireStep {
    /// Render to the image with this index.
    Use(u32),
    /// Destroy the swapchain and try again.
    Retry,
    /// Give up: the frame cannot be rendered (the engine stops with an error).
    Abort,
}

/// Attempts the backbuffer system makes before giving up.
pub const BACKBUFFER_ACQUIRE_ATTEMPTS: u32 = 2;

/// Attempts a surface or presenter makes before giving up.
pub const SURFACE_ACQUIRE_ATTEMPTS: u32 = 5;

/// Attempts allowed to a surface (`surface`) or to the backbuffer system.
pub open spec fn spec_attempts(surface: bool) -> int {
    if surface {
        SURFACE_ACQUIRE_ATTEMPTS as int
    } else {
        BACKBUFFER_ACQUIRE_ATTEMPTS as int
    }
}

/// The next step after attempt number `attempt` gave `result`, for a surface
/// (`surface`) or for the backbuffer system.
///
/// An acquired image is used. The backbuffer system retries only an
/// out-of-date swapchain and aborts on any other error; a surface aborts only
/// when it is lost and retries any other error. Neither retries after its
/// last allowed attempt.
pub open spec fn spec_step(surface: bool, attempt: int, result: Result<u32, AcquireError>) -> AcquireStep {
    match result {
        Ok(index) => AcquireStep::Use(index),
        Err(e) => {
            let retryable = if surface {
                e != AcquireError::SurfaceLost
            } else {
                e == AcquireError::OutOfDate
            };
            if retryable && attempt + 1 < spec_attempts(surface) {
                AcquireStep::Retry
            } else {
                AcquireStep::Abort
            }
        },
    }
}

/// Whatever the attempt, and for a surface as for the backbuffer system, an
/// acquired image is used, and a failed acquisition never uses an image.
pub proof fn lemma_acquired_image_is_used(
    surface: bool,
    attempt: int,
    result: Result<u32, AcquireError>,
)
    ensures
        forall|i: u32| result == Ok::<u32, AcquireError>(i) ==> spec_step(surface, attempt, result) == AcquireStep::Use(i),
        result is Err ==> !(spec_step(surface, attempt, result) is Use),
{
}

/// The outcome of acquiring an image when the attempts from `attempt` on
/// give `results` in turn, with the number of attempts made so far when it is
/// decided.
pub open spec fn spec_acquire_run(surface: bool, results: Seq<Result<u32, AcquireError>>, attempt: nat) -> (
    AcquireStep,
    nat,
)
    decreases results.len() - attempt,
{
    if attempt >= results.len() {
        (AcquireStep::Retry, attempt)
    } else {
        let step = spec_step(surface, attempt as int, results[attempt as int]);
        if step == AcquireStep::Retry {
            spec_acquire_run(surface, results, attempt + 1)
        } else {
            (step, attempt + 1)
        }
    }
}

proof fn lemma_acquire_run_from(surface: bool, results: Seq<Result<u32, AcquireError>>, attempt: nat)
    requires
        attempt < spec_attempts(surface) <= results.len(),
    ensures
        ({
            let (step, n) = spec_acquire_run(surface, results, attempt);
            &&& attempt < n <= spec_attempts(surface)
            &&& step != AcquireStep::Retry
            &&& step == spec_step(surface, n - 1, results[n - 1])
            &&& forall|k: int| attempt <= k < n - 1 ==> spec_step(surface, k, #[trigger] results[k]) == AcquireStep::Retry
        }),
    decreases spec_attempts(surface) - attempt,
{
    let step = spec_step(surface, attempt as int, results[attempt as int]);
    if step == AcquireStep::Retry {
        lemma_acquire_run_from(surface, results, attempt + 1);
    }
}

/// Acquiring an image ends within the allowed attempts: once as many results
/// as attempts are available, the run decides to use an image or to abort
/// after `n` attempts, `1 <= n <=` the allowed number, every earlier attempt
/// having been retried; it uses image `i` exactly when attempt `n` acquired
/// image `i`.
pub proof fn lemma_acquire_attempts_bounded(surface: bool, results: Seq<Result<u32, AcquireError>>)
    requires
        spec_attempts(surface) <= results.len(),
    ensures
        ({
            let (step, n) = spec_acquire_run(surface, results, 0);
            &&& 1 <= n <= spec_attempts(surface)
            &&& step != AcquireStep::Retry
            &&& forall|k: int| 0 <= k < n - 1 ==> spec_step(surface, k, #[trigger] results[k]) == AcquireStep::Retry
            &&& forall|i: u32| step == AcquireStep::Use(i) <==> results[n - 1] == Ok::<u32, AcquireError>(i)
        }),
{
    lemma_acquire_run_from(surface, results, 0);
}

/// Decides the backbuffer system's next step after attempt number `attempt`
/// (counting from 0) gave `result`.
///
/// An acquired image is used. An out-of-date swapchain is destroyed and the
/// acquisition tried again, unless this was the last allowed attempt. Any
/// other error aborts.
pub fn backbuffer_acquire_step(attempt: u32, result: Result<u32, AcquireError>) -> (step: AcquireStep)
    requires
        attempt < BACKBUFFER_ACQUIRE_ATTEMPTS,
    ensures
        step == spec_step(false, attempt as int, result),
{
    match result {
        Ok(index) => AcquireStep::Use(index),
        Err(AcquireError::OutOfDate) => {
            if attempt + 1 < BACKBUFFER_ACQUIRE_ATTEMPTS {
                AcquireStep::Retry
            } else {
                AcquireStep::Abort
            }
        },
        Err(_) => AcquireStep::Abort,
    }
}

/// Decides a surface's next step after attempt number `attempt` (counting
/// from 0) gave `result`.
///
/// An acquired image is used. A lost surface aborts. Any other error destroys
/// the swapchain and tries again, unless this was the last allowed attempt.
pub fn surface_acquire_step(attempt: u32, result: Result<u32, AcquireError>) -> (step: AcquireStep)
    requires
        attempt < SURFACE_ACQUIRE_ATTEMPTS,
    ensures
        step == spec_step(true, attempt as int, result),
{
    match result {
        Ok(index) => AcquireStep::Use(index),
        Err(AcquireError::SurfaceLost) => AcquireStep::Abort,
        Err(_) => {
            if attempt + 1 < SURFACE_ACQUIRE_ATTEMPTS {
                AcquireStep::Retry
            } else {
                AcquireStep::Abort
            }
        },
    }
}

/// The image to present, if any: only an image acquired from a swapchain
/// that still exists is presented.
pub fn present_index(has_swapchain: bool, image_index: Option<u32>) -> (index: Option<u32>)
    ensures
        index == (if has_swapchain {
            image_index
        } else {
            None
        }),
{
    if has_swapchain {
        image_index
    } else {
        None
    }
}

} // verus!
