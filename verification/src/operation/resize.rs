//! The integer side of a resize: its six geometry modes, the validation of
//! the box a mode needs, the cap on the output size (an upscale-bomb
//! defense), and the centered crop of a `fill`. The scale factors
//! themselves are floating point and are computed by the program.

use vstd::prelude::*;

use crate::operation::registry::RegistryError;
use crate::operation::OperationError;
use crate::strings::{decimal, push_decimal, push_str, str_eq};

verus! {

/// The six geometry strategies of a resize.
#[derive(Debug, Clone, Copy, PartialEq, Eq, Structural)]
pub enum ResizeMode {
    /// Cap the long edge at `width`, never upscaling.
    Max,
    /// Force exactly `width` x `height`.
    Exact,
    /// Scale both edges by a percentage.
    Percent,
    /// Fit inside `width` x `height`, never upscaling.
    Fit,
    /// Cover `width` x `height`, then center-crop to it.
    Fill,
    /// Cover `width` x `height`, possibly upscaling, without a crop.
    Cover,
}

/// The recipe name of a mode.
pub open spec fn spec_mode_name(m: ResizeMode) -> Seq<char> {
    match m {
        ResizeMode::Max => "max"@,
        ResizeMode::Exact => "exact"@,
        ResizeMode::Percent => "percent"@,
        ResizeMode::Fit => "fit"@,
        ResizeMode::Fill => "fill"@,
        ResizeMode::Cover => "cover"@,
    }
}

impl ResizeMode {
    /// The recipe name of the mode (`"max"`, `"exact"`, ...).
    pub fn name(self) -> (n: &'static str)
        ensures
            n@ == spec_mode_name(self),
    {
        match self {
            ResizeMode::Max => "max",
            ResizeMode::Exact => "exact",
            ResizeMode::Percent => "percent",
            ResizeMode::Fit => "fit",
            ResizeMode::Fill => "fill",
            ResizeMode::Cover => "cover",
        }
    }
}

/// The mode a name selects, if any.
pub open spec fn spec_mode_of(s: Seq<char>) -> Option<ResizeMode> {
    if s == "max"@ {
        Some(ResizeMode::Max)
    } else if s == "exact"@ {
        Some(ResizeMode::Exact)
    } else if s == "percent"@ {
        Some(ResizeMode::Percent)
    } else if s == "fit"@ {
        Some(ResizeMode::Fit)
    } else if s == "fill"@ {
        Some(ResizeMode::Fill)
    } else if s == "cover"@ {
        Some(ResizeMode::Cover)
    } else {
        None
    }
}

/// The reason a resize rejects its `mode` parameter: missing, or naming
/// no mode.
pub open spec fn spec_mode_error(mode: Option<Seq<char>>) -> Seq<char> {
    match mode {
        None => "missing required param 'mode'"@,
        Some(s) => "unknown mode '"@ + s + "'; expected one of: max, exact, percent, fit, fill, cover"@,
    }
}

/// Parse the `mode` parameter of a resize: a missing or unknown mode is
/// [`RegistryError::InvalidParams`] for `"resize"`.
pub fn parse_resize_mode(mode: Option<&str>) -> (r: Result<ResizeMode, RegistryError>)
    ensures
        match mode {
            Some(s) => match spec_mode_of(s@) {
                Some(m) => r == Ok::<ResizeMode, RegistryError>(m),
                None => r matches Err(RegistryError::InvalidParams { op, reason }) && op@ == "resize"@
                    && reason@ == spec_mode_error(Some(s@)),
            },
            None => r matches Err(RegistryError::InvalidParams { op, reason }) && op@ == "resize"@
                && reason@ == spec_mode_error(None),
        },
{
    proof {
        reveal_strlit("max");
        reveal_strlit("exact");
        reveal_strlit("percent");
        reveal_strlit("fit");
        reveal_strlit("fill");
        reveal_strlit("cover");
        reveal_strlit("resize");
    }
    let s = match mode {
        None => {
            let mut reason = String::new();
            push_str(&mut reason, "missing required param 'mode'");
            return Err(RegistryError::InvalidParams { op: "resize", reason });
        },
        Some(s) => s,
    };
    if str_eq(s, "max") {
        Ok(ResizeMode::Max)
    } else if str_eq(s, "exact") {
        Ok(ResizeMode::Exact)
    } else if str_eq(s, "percent") {
        Ok(ResizeMode::Percent)
    } else if str_eq(s, "fit") {
        Ok(ResizeMode::Fit)
    } else if str_eq(s, "fill") {
        Ok(ResizeMode::Fill)
    } else if str_eq(s, "cover") {
        Ok(ResizeMode::Cover)
    } else {
        let mut reason = String::new();
        push_str(&mut reason, "unknown mode '");
        push_str(&mut reason, s);
        push_str(&mut reason, "'; expected one of: max, exact, percent, fit, fill, cover");
        Err(RegistryError::InvalidParams { op: "resize", reason })
    }
}

/// Every mode's name parses back to it.
pub proof fn law_mode_name_round_trip(m: ResizeMode)
    ensures
        spec_mode_of(spec_mode_name(m)) == Some(m),
{
    reveal_strlit("max");
    reveal_strlit("exact");
    reveal_strlit("percent");
    reveal_strlit("fit");
    reveal_strlit("fill");
    reveal_strlit("cover");
    assert("max"@ != "exact"@ && "max"@ != "percent"@ && "max"@ != "fit"@ && "max"@ != "fill"@
        && "max"@ != "cover"@) by {
        assert("max"@[0] != "exact"@[0] && "max"@[0] != "percent"@[0] && "max"@[0] != "fit"@[0]
            && "max"@[0] != "fill"@[0] && "max"@[0] != "cover"@[0]);
    }
    assert("exact"@ != "percent"@ && "exact"@ != "fit"@ && "exact"@ != "fill"@ && "exact"@ != "cover"@)
        by {
        assert("exact"@[0] != "percent"@[0] && "exact"@[0] != "fit"@[0] && "exact"@[0] != "fill"@[0]
            && "exact"@[0] != "cover"@[0]);
    }
    assert("percent"@ != "fit"@ && "percent"@ != "fill"@ && "percent"@ != "cover"@) by {
        assert("percent"@[0] != "fit"@[0] && "percent"@[0] != "fill"@[0] && "percent"@[0]
            != "cover"@[0]);
    }
    assert("fit"@ != "fill"@ && "fit"@ != "cover"@) by {
        assert("fit"@.len() != "fill"@.len() && "fit"@[0] != "cover"@[0]);
    }
    assert("fill"@ != "cover"@) by {
        assert("fill"@[0] != "cover"@[0]);
    }
}

/// The reason a box mode rejects its dimensions, if it does: `max` needs a
/// positive `width` (the long-edge cap); `exact`, `fit`, `fill` and `cover`
/// need a positive `width` and a positive `height`.
pub open spec fn spec_box_error(m: ResizeMode, width: Option<u32>, height: Option<u32>) -> Option<Seq<char>> {
    let name = spec_mode_name(m);
    if m == ResizeMode::Max {
        match width {
            None => Some("mode 'max' requires a positive integer 'width' param (the long-edge cap)"@),
            Some(w) => if w == 0 {
                Some("mode 'max' requires 'width' > 0"@)
            } else {
                None
            },
        }
    } else {
        match width {
            None => Some("mode '"@ + name + "' requires a positive integer 'width' param"@),
            Some(w) => if w == 0 {
                Some("mode '"@ + name + "' requires 'width' > 0"@)
            } else {
                match height {
                    None => Some("mode '"@ + name + "' requires a positive integer 'height' param"@),
                    Some(h) => if h == 0 {
                        Some("mode '"@ + name + "' requires 'height' > 0"@)
                    } else {
                        None
                    },
                }
            },
        }
    }
}

/// Validate the box of a mode other than `percent`: the width (and, except
/// for `max`, the height) it keeps, or [`RegistryError::InvalidParams`] for
/// `"resize"` with the reason.
pub fn box_params(m: ResizeMode, width: Option<u32>, height: Option<u32>) -> (r: Result<
    (u32, Option<u32>),
    RegistryError,
>)
    requires
        m != ResizeMode::Percent,
    ensures
        match spec_box_error(m, width, height) {
            Some(reason) => r matches Err(RegistryError::InvalidParams { op, reason: s }) && op@ == "resize"@
                && s@ == reason,
            None => r == Ok::<(u32, Option<u32>), RegistryError>(
                (width.unwrap(), if m == ResizeMode::Max { None } else { height }),
            ),
        },
{
    proof {
        reveal_strlit("resize");
    }
    let name = m.name();
    let mut reason = String::new();
    if m == ResizeMode::Max {
        match width {
            None => {
                push_str(&mut reason, "mode 'max' requires a positive integer 'width' param (the long-edge cap)");
                Err(RegistryError::InvalidParams { op: "resize", reason })
            },
            Some(w) => if w == 0 {
                push_str(&mut reason, "mode 'max' requires 'width' > 0");
                Err(RegistryError::InvalidParams { op: "resize", reason })
            } else {
                Ok((w, None))
            },
        }
    } else {
        let w = match width {
            None => {
                push_str(&mut reason, "mode '");
                push_str(&mut reason, name);
                push_str(&mut reason, "' requires a positive integer 'width' param");
                return Err(RegistryError::InvalidParams { op: "resize", reason });
            },
            Some(w) => w,
        };
        if w == 0 {
            push_str(&mut reason, "mode '");
            push_str(&mut reason, name);
            push_str(&mut reason, "' requires 'width' > 0");
            return Err(RegistryError::InvalidParams { op: "resize", reason });
        }
        let h = match height {
            None => {
                push_str(&mut reason, "mode '");
                push_str(&mut reason, name);
                push_str(&mut reason, "' requires a positive integer 'height' param");
                return Err(RegistryError::InvalidParams { op: "resize", reason });
            },
            Some(h) => h,
        };
        if h == 0 {
            push_str(&mut reason, "mode '");
            push_str(&mut reason, name);
            push_str(&mut reason, "' requires 'height' > 0");
            return Err(RegistryError::InvalidParams { op: "resize", reason });
        }
        Ok((w, Some(h)))
    }
}

/// The largest output edge a resize may produce, in pixels.
pub const MAX_EDGE: u32 = 50000;

/// The largest output area a resize may produce, in pixels (512 MiB of
/// RGBA8, the same as the decode allocation cap).
pub const MAX_AREA: u64 = 134217728;

/// The reason a resize refuses a target size, if it does: an edge over
/// [`MAX_EDGE`], else an area over [`MAX_AREA`].
pub open spec fn spec_target_error(tw: u32, th: u32) -> Option<Seq<char>> {
    if tw > MAX_EDGE || th > MAX_EDGE {
        Some(
            "target dimensions "@ + decimal(tw as nat) + "×"@ + decimal(th as nat)
                + " exceed the maximum edge limit of 50000 px"@,
        )
    } else if (tw as int) * (th as int) > MAX_AREA {
        Some(
            "target area "@ + decimal(tw as nat) + "×"@ + decimal(th as nat) + " = "@ + decimal(
                ((tw as int) * (th as int)) as nat,
            ) + " px exceeds the maximum area of 134217728 px"@,
        )
    } else {
        None
    }
}

/// Check a resize's target size before anything is allocated for it; one
/// check covers all six modes.
pub fn check_resize_target(tw: u32, th: u32) -> (r: Result<(), OperationError>)
    ensures
        match spec_target_error(tw, th) {
            Some(reason) => r matches Err(OperationError::Apply { op, reason: s }) && op@ == "resize"@
                && s@ == reason,
            None => r == Ok::<(), OperationError>(()),
        },
{
    proof {
        reveal_strlit("resize");
    }
    let mut reason = String::new();
    if tw > MAX_EDGE || th > MAX_EDGE {
        push_str(&mut reason, "target dimensions ");
        push_decimal(&mut reason, tw as u64);
        push_str(&mut reason, "×");
        push_decimal(&mut reason, th as u64);
        push_str(&mut reason, " exceed the maximum edge limit of 50000 px");
        return Err(OperationError::Apply { op: "resize", reason });
    }
    assert((tw as int) * (th as int) <= 50000 * 50000) by (nonlinear_arith)
        requires
            tw <= 50000,
            th <= 50000,
    ;
    let area: u64 = (tw as u64) * (th as u64);
    if area > MAX_AREA {
        push_str(&mut reason, "target area ");
        push_decimal(&mut reason, tw as u64);
        push_str(&mut reason, "×");
        push_decimal(&mut reason, th as u64);
        push_str(&mut reason, " = ");
        push_decimal(&mut reason, area);
        push_str(&mut reason, " px exceeds the maximum area of 134217728 px");
        return Err(OperationError::Apply { op: "resize", reason });
    }
    Ok(())
}

/// Where a `fill` crops the covering resize of `rw` x `rh` to the box
/// `tw` x `th`: centered, and never before the origin.
pub fn fill_crop_offsets(rw: u32, rh: u32, tw: u32, th: u32) -> (r: (u32, u32))
    ensures
        r.0 == (if rw > tw { (rw - tw) / 2 } else { 0 }),
        r.1 == (if rh > th { (rh - th) / 2 } else { 0 }),
{
    (rw.saturating_sub(tw) / 2, rh.saturating_sub(th) / 2)
}

} // verus!
