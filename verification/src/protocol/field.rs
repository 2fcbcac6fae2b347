//! Values carried by sparse field updates, and the updates themselves.

use vstd::prelude::*;

verus! {

/// A value that can be compared and copied by its model, so that deltas can
/// be computed and applied with exact contracts.
pub trait FieldValue: DeepView + Sized {
    /// Whether two values have the same model.
    fn same(&self, other: &Self) -> (r: bool)
        ensures
            r == (self.deep_view() == other.deep_view()),
    ;

    /// A copy with the same model.
    fn duplicate(&self) -> (r: Self)
        ensures
            r.deep_view() == self.deep_view(),
    ;
}

impl FieldValue for bool {
    fn same(&self, other: &Self) -> (r: bool) {
        *self == *other
    }

    fn duplicate(&self) -> (r: Self) {
        *self
    }
}

impl FieldValue for u8 {
    fn same(&self, other: &Self) -> (r: bool) {
        *self == *other
    }

    fn duplicate(&self) -> (r: Self) {
        *self
    }
}

impl FieldValue for u16 {
    fn same(&self, other: &Self) -> (r: bool) {
        *self == *other
    }

    fn duplicate(&self) -> (r: Self) {
        *self
    }
}

impl FieldValue for u32 {
    fn same(&self, other: &Self) -> (r: bool) {
        *self == *other
    }

    fn duplicate(&self) -> (r: Self) {
        *self
    }
}

impl FieldValue for u64 {
    fn same(&self, other: &Self) -> (r: bool) {
        *self == *other
    }

    fn duplicate(&self) -> (r: Self) {
        *self
    }
}

impl FieldValue for usize {
    fn same(&self, other: &Self) -> (r: bool) {
        *self == *other
    }

    fn duplicate(&self) -> (r: Self) {
        *self
    }
}

impl FieldValue for String {
    fn same(&self, other: &Self) -> (r: bool) {
        *self == *other
    }

    fn duplicate(&self) -> (r: Self) {
        self.clone()
    }
}

impl<T: FieldValue> FieldValue for Option<T> {
    fn same(&self, other: &Self) -> (r: bool) {
        match (self, other) {
            (Some(a), Some(b)) => a.same(b),
            (None, None) => true,
            _ => false,
        }
    }

    fn duplicate(&self) -> (r: Self) {
        match self {
            Some(a) => Some(a.duplicate()),
            None => None,
        }
    }
}

impl<A: FieldValue, B: FieldValue> FieldValue for (A, B) {
    fn same(&self, other: &Self) -> (r: bool) {
        self.0.same(&other.0) && self.1.same(&other.1)
    }

    fn duplicate(&self) -> (r: Self) {
        (self.0.duplicate(), self.1.duplicate())
    }
}

impl<T: FieldValue> FieldValue for Box<T> {
    fn same(&self, other: &Self) -> (r: bool) {
        (**self).same(&**other)
    }

    fn duplicate(&self) -> (r: Self) {
        Box::new((**self).duplicate())
    }
}

impl<T: FieldValue> FieldValue for Vec<T> {
    fn same(&self, other: &Self) -> (r: bool) {
        if self.len() != other.len() {
            assert(self.deep_view().len() != other.deep_view().len());
            return false;
        }
        let mut i: usize = 0;
        while i < self.len()
            invariant
                self.len() == other.len(),
                i <= self.len(),
                forall|j: int| 0 <= j < i ==> self@[j].deep_view() == other@[j].deep_view(),
            decreases self.len() - i,
        {
            if !self[i].same(&other[i]) {
                assert(self.deep_view()[i as int] != other.deep_view()[i as int]);
                return false;
            }
            i += 1;
        }
        assert(self.deep_view() =~= other.deep_view());
        true
    }

    fn duplicate(&self) -> (r: Self) {
        let mut out: Vec<T> = Vec::new();
        let mut i: usize = 0;
        while i < self.len()
            invariant
                i <= self.len(),
                out.len() == i,
                forall|j: int| 0 <= j < i ==> out@[j].deep_view() == self@[j].deep_view(),
            decreases self.len() - i,
        {
            out.push(self[i].duplicate());
            i += 1;
        }
        assert(out.deep_view() =~= self.deep_view());
        out
    }
}

/// Sparse field update for metadata deltas.
#[derive(Debug, Clone, Copy, PartialEq, Eq, Default)]
pub enum FieldUpdate<T> {
    #[default]
    Unchanged,
    Changed(T),
}

impl<T> FieldUpdate<T> {
    pub fn is_unchanged(&self) -> (r: bool)
        ensures
            r == (self is Unchanged),
    {
        match self {
            FieldUpdate::Unchanged => true,
            FieldUpdate::Changed(_) => false,
        }
    }

    /// The value a target holds after this update.
    pub open spec fn spec_applied(self, target: T) -> T {
        match self {
            FieldUpdate::Changed(v) => v,
            FieldUpdate::Unchanged => target,
        }
    }

    /// Replaces the target when the update carries a value.
    pub fn apply_to(self, target: &mut T)
        ensures
            *final(target) == self.spec_applied(*old(target)),
    {
        if let FieldUpdate::Changed(val) = self {
            *target = val;
        }
    }
}

impl<T: DeepView> FieldUpdate<T> {
    /// The model a target holds after this update.
    pub open spec fn applied_view(self, target: T::V) -> T::V {
        match self {
            FieldUpdate::Changed(v) => v.deep_view(),
            FieldUpdate::Unchanged => target,
        }
    }

    /// This update is the one `diff` computes from `base` to `next`.
    pub open spec fn is_diff_of(self, base: T::V, next: T::V) -> bool {
        if base == next {
            self is Unchanged
        } else {
            self matches FieldUpdate::Changed(v) && v.deep_view() == next
        }
    }
}

impl<T: FieldValue> FieldUpdate<T> {
    /// `Unchanged` when both values have the same model, otherwise a copy of `next`.
    pub fn diff(base: &T, next: &T) -> (r: Self)
        ensures
            r.is_diff_of(base.deep_view(), next.deep_view()),
    {
        if base.same(next) {
            FieldUpdate::Unchanged
        } else {
            FieldUpdate::Changed(next.duplicate())
        }
    }

    /// Replaces the target with a copy of the carried value, if any.
    pub fn apply_copy(&self, target: &mut T)
        ensures
            final(target).deep_view() == self.applied_view(old(target).deep_view()),
    {
        if let FieldUpdate::Changed(val) = self {
            *target = val.duplicate();
        }
    }

    pub fn duplicate(&self) -> (r: Self)
        ensures
            match (self, r) {
                (FieldUpdate::Changed(a), FieldUpdate::Changed(b)) => a.deep_view() == b.deep_view(),
                (FieldUpdate::Unchanged, FieldUpdate::Unchanged) => true,
                _ => false,
            },
    {
        match self {
            FieldUpdate::Changed(v) => FieldUpdate::Changed(v.duplicate()),
            FieldUpdate::Unchanged => FieldUpdate::Unchanged,
        }
    }
}

/// Fixed-layout field update used by binary surface deltas.
#[derive(Debug, Clone, Copy, PartialEq, Eq, Default)]
pub enum SurfaceFieldUpdate<T> {
    #[default]
    Unchanged,
    Changed(T),
}

impl<T: DeepView> SurfaceFieldUpdate<T> {
    /// The model a target holds after this update.
    pub open spec fn applied_view(self, target: T::V) -> T::V {
        match self {
            SurfaceFieldUpdate::Changed(v) => v.deep_view(),
            SurfaceFieldUpdate::Unchanged => target,
        }
    }

    /// This update is the one `diff` computes from `base` to `next`.
    pub open spec fn is_diff_of(self, base: T::V, next: T::V) -> bool {
        if base == next {
            self is Unchanged
        } else {
            self matches SurfaceFieldUpdate::Changed(v) && v.deep_view() == next
        }
    }
}

impl<T: FieldValue> SurfaceFieldUpdate<T> {
    /// Copies the carried value into the target, if any.
    pub fn apply_to(&self, target: &mut T)
        ensures
            final(target).deep_view() == self.applied_view(old(target).deep_view()),
    {
        if let SurfaceFieldUpdate::Changed(val) = self {
            *target = val.duplicate();
        }
    }

    /// `Unchanged` when both values have the same model, otherwise a copy of `next`.
    pub fn diff(base: &T, next: &T) -> (r: Self)
        ensures
            r.is_diff_of(base.deep_view(), next.deep_view()),
    {
        if base.same(next) {
            SurfaceFieldUpdate::Unchanged
        } else {
            SurfaceFieldUpdate::Changed(next.duplicate())
        }
    }

    pub fn duplicate(&self) -> (r: Self)
        ensures
            r.applied_view(arbitrary()) == self.applied_view(arbitrary()),
            r is Unchanged <==> self is Unchanged,
    {
        match self {
            SurfaceFieldUpdate::Changed(v) => SurfaceFieldUpdate::Changed(v.duplicate()),
            SurfaceFieldUpdate::Unchanged => SurfaceFieldUpdate::Unchanged,
        }
    }
}

} // verus!
