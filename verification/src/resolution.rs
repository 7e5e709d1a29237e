use vstd::prelude::*;

verus! {

/// A window size in pixels, either physical or logical (scaled by the display).
#[derive(Copy, Clone, Debug, PartialEq, Eq, Structural)]
pub enum Resolution {
    Physical(u32, u32),
    Logical(u32, u32),
}

impl Resolution {
    /// The width, whichever kind of size this is.
    pub open spec fn spec_width(self) -> u32 {
        match self {
            Resolution::Physical(w, _) => w,
            Resolution::Logical(w, _) => w,
        }
    }

    /// The height, whichever kind of size this is.
    pub open spec fn spec_height(self) -> u32 {
        match self {
            Resolution::Physical(_, h) => h,
            Resolution::Logical(_, h) => h,
        }
    }

    /// Whether this is a physical size.
    pub open spec fn is_physical(self) -> bool {
        self is Physical
    }

    /// The size that `ensure_non_zero` leaves: unchanged when both sides are positive,
    /// else 1 by 1 of the same kind.
    pub open spec fn non_zero(self) -> Resolution {
        if self.spec_width() == 0 || self.spec_height() == 0 {
            match self {
                Resolution::Physical(_, _) => Resolution::Physical(1, 1),
                Resolution::Logical(_, _) => Resolution::Logical(1, 1),
            }
        } else {
            self
        }
    }

    pub fn width(&self) -> (w: u32)
        ensures
            w == self.spec_width(),
    {
        match self {
            Self::Physical(w, _) => *w,
            Self::Logical(w, _) => *w,
        }
    }

    pub fn height(&self) -> (h: u32)
        ensures
            h == self.spec_height(),
    {
        match self {
            Self::Physical(_, h) => *h,
            Self::Logical(_, h) => *h,
        }
    }

    /// Replaces a size with a zero side by 1 by 1 of the same kind (the smallest window),
    /// and returns the result.
    pub fn ensure_non_zero(&mut self) -> (r: Resolution)
        ensures
            *final(self) == old(self).non_zero(),
            r == old(self).non_zero(),
    {
        let min_window_size: u32 = 1;
        match self {
            Resolution::Physical(w, h) => {
                if *w == 0 || *h == 0 {
                    *w = min_window_size;
                    *h = min_window_size;
                }
            },
            Resolution::Logical(w, h) => {
                if *w == 0 || *h == 0 {
                    *w = min_window_size;
                    *h = min_window_size;
                }
            },
        }
        *self
    }
}

/// `ensure_non_zero` keeps the kind of size, leaves both sides positive, and changes
/// nothing on a size that already has both sides positive; applying it twice is the
/// same as applying it once.
pub proof fn law_ensure_non_zero(r: Resolution)
    ensures
        r.non_zero().is_physical() == r.is_physical(),
        r.non_zero().spec_width() > 0,
        r.non_zero().spec_height() > 0,
        r.spec_width() > 0 && r.spec_height() > 0 ==> r.non_zero() == r,
        r.non_zero().non_zero() == r.non_zero(),
{
}

} // verus!
