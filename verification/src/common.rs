use vstd::prelude::*;

verus! {

/// A value that can be put back to its initial state.
pub trait Reset {
    fn reset(&mut self);
}

/// A value together with its optional limits and default.
#[derive(Debug, Clone, Default)]
pub struct RangedData<T: Clone + Default> {
    pub value: T,
    pub min: Option<T>,
    pub max: Option<T>,
    pub default: Option<T>,
}

/// `r` is made from `v`: its value a clone of `v`, `v` its default, no limits.
pub open spec fn made_from<T: Clone + Default>(v: T, r: RangedData<T>) -> bool {
    &&& cloned::<T>(v, r.value)
    &&& r.min is None
    &&& r.max is None
    &&& r.default == Some(v)
}

/// `after` is `before` put back to its default: the value a clone of the
/// default (`T::default()` where there is none), the limits and the default kept.
pub open spec fn reset_of<T: Clone + Default>(before: RangedData<T>, after: RangedData<T>) -> bool {
    &&& after.min == before.min
    &&& after.max == before.max
    &&& after.default == before.default
    &&& before.default matches Some(d) ==> cloned::<T>(d, after.value)
    &&& before.default is None ==> T::default.ensures((), after.value)
}

/// Law of ranged values: a value made from `v`, whatever it was set to since,
/// is put back by a reset to a clone of `v`, with `v` as its default and no limits.
pub proof fn law_reset_restores_from<T: Clone + Default>(
    v: T,
    made: RangedData<T>,
    changed: RangedData<T>,
    after: RangedData<T>,
)
    requires
        made_from(v, made),
        changed.min == made.min,
        changed.max == made.max,
        changed.default == made.default,
        reset_of(changed, after),
    ensures
        cloned::<T>(v, after.value),
        after.default == Some(v),
        after.min is None,
        after.max is None,
{
}

impl<T: Clone + Default> RangedData<T> {
    /// Sets both the value and the default to `value`, with no limits.
    pub fn from(value: T) -> (r: Self)
        ensures
            made_from(value, r),
    {
        RangedData { value: value.clone(), min: None, max: None, default: Some(value) }
    }
}

impl<T: Clone + Default> Reset for RangedData<T> {
    /// Puts the value back to a copy of the default, or to `T::default()` where there is none.
    fn reset(&mut self)
        ensures
            reset_of(*old(self), *final(self)),
    {
        let v = self.default.clone().unwrap_or_default();
        self.value = v;
    }
}

/// Two ranged values are equal when their values are: the limits and the
/// default are left out of the comparison.
impl<T: Clone + Default + PartialEq + vstd::std_specs::cmp::PartialEqSpec> PartialEq for RangedData<T> {
    fn eq(&self, other: &Self) -> (r: bool) {
        self.value == other.value
    }
}

impl<T: Clone + Default + PartialEq + vstd::std_specs::cmp::PartialEqSpec> vstd::std_specs::cmp::PartialEqSpecImpl for RangedData<T> {
    open spec fn obeys_eq_spec() -> bool {
        T::obeys_eq_spec()
    }

    open spec fn eq_spec(&self, other: &Self) -> bool {
        self.value.eq_spec(&other.value)
    }
}

/// How a text value is edited: on one line or on several.
#[derive(Clone, Copy, Debug, PartialEq, Eq, Structural)]
pub enum TextStyle {
    Oneline,
    Multiline,
}

impl TextStyle {
    /// The default style: one line.
    pub fn default() -> (r: Self)
        ensures
            r == TextStyle::Oneline,
    {
        TextStyle::Oneline
    }
}

/// The size and mode of the editor's window, kept between runs.
#[derive(Clone, Copy, Debug, Default)]
pub struct WindowState {
    pub res: (u32, u32),
    pub fullscreen: bool,
}

/// Limits on a dragged value: clamped to optional bounds, looped between two
/// bounds, or free.
pub enum UiLimit<T> {
    Clamp(Option<T>, Option<T>),
    Loop(T, T),
    Free,
}

impl<T> UiLimit<T> {
    /// The lower bound, if there is one.
    pub fn min(&self) -> (r: Option<&T>)
        ensures
            match self {
                UiLimit::Clamp(min, _) => match min { Some(m) => r == Some(m), None => r is None },
                UiLimit::Loop(min, _) => r == Some(min),
                UiLimit::Free => r is None,
            },
    {
        match self {
            UiLimit::Clamp(min, _) => min.as_ref(),
            UiLimit::Loop(min, _) => Some(min),
            UiLimit::Free => None,
        }
    }

    /// The upper bound, if there is one.
    pub fn max(&self) -> (r: Option<&T>)
        ensures
            match self {
                UiLimit::Clamp(_, max) => match max { Some(m) => r == Some(m), None => r is None },
                UiLimit::Loop(_, max) => r == Some(max),
                UiLimit::Free => r is None,
            },
    {
        match self {
            UiLimit::Clamp(_, max) => max.as_ref(),
            UiLimit::Loop(_, max) => Some(max),
            UiLimit::Free => None,
        }
    }
}

/// The range of a whole-number slider: the given bounds, or 0 to 1 where they
/// are missing.
pub fn default_range_i32(min: &Option<i32>, max: &Option<i32>) -> (r: core::ops::RangeInclusive<i32>)
    ensures
        r@.start == match min { Some(m) => *m, None => 0i32 },
        r@.end == match max { Some(m) => *m, None => 1i32 },
{
    let lo = match min { Some(m) => *m, None => 0 };
    let hi = match max { Some(m) => *m, None => 1 };
    core::ops::RangeInclusive::new(lo, hi)
}

/// Whether an animator's settings are being edited.
#[derive(Clone, Copy, Debug, PartialEq, Eq, Structural)]
pub enum UpdaterUiState {
    Idle,
    Editing,
}

/// A point in time of a monotonic clock (`std::time::Instant`).
#[verifier::external_type_specification]
#[verifier::external_body]
pub struct ExInstant(std::time::Instant);

/// Calls `Instant::now`: the current time, of which nothing is promised.
#[verifier::external_body]
pub(crate) fn instant_now() -> (r: std::time::Instant) {
    std::time::Instant::now()
}

/// An error met by a node, and when it happened.
#[derive(Debug)]
pub struct NodeError {
    pub text: String,
    pub when: std::time::Instant,
}

impl NodeError {
    /// An error with the given text, happening now.
    pub fn new(text: String) -> (r: Self)
        ensures
            r.text == text,
    {
        NodeError { text, when: instant_now() }
    }
}

/// The response type of the graph editor's nodes; they report nothing of their own.
#[derive(Clone, Copy, Debug)]
pub struct GraphResponse;

} // verus!
