//! Where on a simulated path the calibration reads its samples.
//!
//! A path simulated over `n` Euler steps holds the states `0..=n` (the state
//! `0` is the starting point) and a gradient history of `n` entries: the
//! entry `s` holds the gradient of the state `s + 1`, and the gradient of the
//! starting state is zero.  An SPX option of maturity step `j` reads the state
//! `j`; a VIX sample at step `j` also reads the realized variance accumulated
//! over the window `j..=j + w`, where `w` is the number of steps of the VIX
//! horizon.
use vstd::prelude::*;

verus! {

/// The slot of the gradient history that holds the gradient of a state;
/// `None` for the starting state, whose gradient is zero.
pub open spec fn grad_slot(state: usize) -> Option<usize> {
    if state == 0 {
        None
    } else {
        Some((state - 1) as usize)
    }
}

/// The entries of a path read for one SPX option.
#[derive(Clone, Copy, Debug, PartialEq, Eq, Structural)]
pub struct SpxSample {
    /// Index of the state in `x`.
    pub state: usize,
    /// Slot of its gradient in the history, `None` when it is zero.
    pub state_grad: Option<usize>,
}

/// The entries of a path read for one VIX sample.
#[derive(Clone, Copy, Debug, PartialEq, Eq, Structural)]
pub struct VixSample {
    /// Index of the state in `x`, `y`, and of the window start in `r`.
    pub state: usize,
    /// Index of the window end in `r`.
    pub window_end: usize,
    /// Slot of the gradient of the state (and of the window start).
    pub state_grad: Option<usize>,
    /// Slot of the gradient of the window end.
    pub window_end_grad: usize,
}

/// The SPX sample at step `step`.
pub open spec fn spx_sample_spec(step: usize) -> SpxSample {
    SpxSample { state: step, state_grad: grad_slot(step) }
}

/// The VIX sample at step `step` with a window of `window` steps.
pub open spec fn vix_sample_spec(step: usize, window: usize) -> VixSample {
    VixSample {
        state: step,
        window_end: (step + window) as usize,
        state_grad: grad_slot(step),
        window_end_grad: (step + window - 1) as usize,
    }
}

/// Every index of an SPX sample is within a path of `n_steps` steps.
pub open spec fn spx_sample_in_path(s: SpxSample, n_steps: nat) -> bool {
    &&& s.state <= n_steps
    &&& (s.state_grad matches Some(g) ==> g < n_steps)
}

/// Every index of a VIX sample is within a path of `n_steps` steps.
pub open spec fn vix_sample_in_path(s: VixSample, n_steps: nat) -> bool {
    &&& s.state <= s.window_end <= n_steps
    &&& (s.state_grad matches Some(g) ==> g < n_steps)
    &&& s.window_end_grad < n_steps
}

/// The entries read for an SPX option maturing at step `step` of a path of
/// `n_steps` steps; a step beyond the path has no state to read.
pub fn spx_sample(step: usize, n_steps: usize) -> (s: SpxSample)
    requires
        step <= n_steps,
    ensures
        s == spx_sample_spec(step),
        spx_sample_in_path(s, n_steps as nat),
        s.state == step,
        s.state_grad is None <==> step == 0,
        s.state_grad matches Some(g) ==> g + 1 == step,
{
    let state_grad = if step == 0 {
        None
    } else {
        Some(step - 1)
    };
    SpxSample { state: step, state_grad }
}

/// The entries read for a VIX sample at step `step` with a window of
/// `window` steps, on a path of `n_steps` steps.  The window must end on the
/// path, and must end after the starting state, whose history has no slot.
pub fn vix_sample(step: usize, window: usize, n_steps: usize) -> (s: VixSample)
    requires
        1 <= step + window <= n_steps,
    ensures
        s == vix_sample_spec(step, window),
        vix_sample_in_path(s, n_steps as nat),
        s.state == step,
        s.window_end == step + window,
        s.window_end - s.state == window,
        s.state_grad is None <==> step == 0,
        s.state_grad matches Some(g) ==> g + 1 == step,
        s.window_end_grad + 1 == s.window_end,
{
    let window_end = step + window;
    let state_grad = if step == 0 {
        None
    } else {
        Some(step - 1)
    };
    VixSample { state: step, window_end, state_grad, window_end_grad: window_end - 1 }
}

/// The number of Euler steps to simulate: the steps up to the last maturity,
/// followed by one VIX window; `None` when that count overflows.
pub fn simulation_steps(horizon: usize, window: usize) -> (n: Option<usize>)
    ensures
        n is Some <==> horizon + window <= usize::MAX,
        n matches Some(n) ==> n == horizon + window,
{
    horizon.checked_add(window)
}

/// A path simulated over the horizon followed by one window holds every
/// sample of every maturity within the horizon.
pub proof fn samples_within_simulation(step: usize, horizon: usize, window: usize)
    requires
        step <= horizon,
        horizon + window <= usize::MAX,
    ensures
        spx_sample_in_path(spx_sample_spec(step), (horizon + window) as nat),
        1 <= step + window ==> vix_sample_in_path(
            vix_sample_spec(step, window),
            (horizon + window) as nat,
        ),
{
}

/// An SPX sample reads the state of its own maturity step, and the gradient
/// of that very state: zero at the starting state, otherwise the history
/// entry written by the Euler step that produced it (one slot below).
pub proof fn spx_sample_reads_its_state(step: usize)
    ensures
        spx_sample_spec(step).state == step,
        spx_sample_spec(step).state_grad is None <==> step == 0,
        step > 0 ==> spx_sample_spec(step).state_grad == Some((step - 1) as usize),
        spx_sample_spec(step).state_grad matches Some(g) ==> g + 1 == step,
{
}

/// A VIX sample reads the state of its maturity step and the realized
/// variance over exactly `window` steps after it; the gradient of the state
/// is zero only at the starting state and is otherwise the slot just below,
/// whatever the window; the gradient of the window end is the slot just
/// below the window end.
pub proof fn vix_sample_reads_its_window(step: usize, window: usize)
    requires
        1 <= step + window <= usize::MAX,
    ensures
        vix_sample_spec(step, window).state == step,
        vix_sample_spec(step, window).window_end == step + window,
        vix_sample_spec(step, window).window_end - vix_sample_spec(step, window).state == window,
        vix_sample_spec(step, window).state_grad is None <==> step == 0,
        step > 0 ==> vix_sample_spec(step, window).state_grad == Some((step - 1) as usize),
        vix_sample_spec(step, window).window_end_grad + 1 == step + window,
{
}

/// A VIX sample at a step reads the same state and state gradient as an SPX
/// option maturing at that step, for every window; its window-end gradient
/// is the gradient an SPX option maturing at the window end would read.
pub proof fn vix_sample_agrees_with_spx_samples(step: usize, window: usize)
    requires
        1 <= step + window <= usize::MAX,
    ensures
        vix_sample_spec(step, window).state == spx_sample_spec(step).state,
        vix_sample_spec(step, window).state_grad == spx_sample_spec(step).state_grad,
        vix_sample_spec(step, window).window_end == spx_sample_spec((step + window) as usize).state,
        spx_sample_spec((step + window) as usize).state_grad == Some(
            vix_sample_spec(step, window).window_end_grad,
        ),
{
}

/// The gradient slot of a state is the history entry written by the Euler
/// step that produced the state: the step `s` writes the state `s + 1` and
/// the history entry `s`.
pub proof fn grad_slot_of_step(s: usize)
    requires
        s < usize::MAX,
    ensures
        grad_slot((s + 1) as usize) == Some(s),
        grad_slot(0) is None,
{
}

} // verus!
