//! Why the overlay could not be set up or drawn, and how that is worded.

use vstd::prelude::*;
use vstd::string::*;

use crate::frame::FrameError;

verus! {

/// Why the owner of the overlay could not set its surface up.
#[derive(Clone, Copy, Debug, PartialEq, Eq, Structural)]
pub enum SetupError {
    NoCompositor,
    NoShm,
    NoLayerShell,
    NoOutput,
    NeverConfigured,
    NoUsableSize { surface_w: u32, surface_h: u32, mode_w: u32, mode_h: u32 },
}

/// A decimal digit.
pub open spec fn digit(d: nat) -> char {
    if d == 0 {
        '0'
    } else if d == 1 {
        '1'
    } else if d == 2 {
        '2'
    } else if d == 3 {
        '3'
    } else if d == 4 {
        '4'
    } else if d == 5 {
        '5'
    } else if d == 6 {
        '6'
    } else if d == 7 {
        '7'
    } else if d == 8 {
        '8'
    } else {
        '9'
    }
}

/// A number in decimal, without leading zeros.
pub open spec fn decimal(n: nat) -> Seq<char>
    decreases n,
{
    if n < 10 {
        seq![digit(n)]
    } else {
        decimal(n / 10).push(digit(n % 10))
    }
}

fn digit_text(d: u32) -> (r: &'static str)
    requires
        d < 10,
    ensures
        r@ == seq![digit(d as nat)],
{
    proof {
        reveal_strlit("0");
        reveal_strlit("1");
        reveal_strlit("2");
        reveal_strlit("3");
        reveal_strlit("4");
        reveal_strlit("5");
        reveal_strlit("6");
        reveal_strlit("7");
        reveal_strlit("8");
        reveal_strlit("9");
    }
    let r: &'static str = match d {
        0 => "0",
        1 => "1",
        2 => "2",
        3 => "3",
        4 => "4",
        5 => "5",
        6 => "6",
        7 => "7",
        8 => "8",
        _ => "9",
    };
    assert(r@ =~= seq![digit(d as nat)]);
    r
}

/// A number in decimal, without leading zeros.
pub fn decimal_text(n: u32) -> (r: String)
    ensures
        r@ == decimal(n as nat),
    decreases n,
{
    if n < 10 {
        digit_text(n).to_owned()
    } else {
        let mut r: String = decimal_text(n / 10);
        r.append(digit_text(n % 10));
        assert(r@ =~= decimal(n as nat));
        r
    }
}

impl SetupError {
    /// The wording of the error.
    pub open spec fn wording(self) -> Seq<char> {
        match self {
            SetupError::NoCompositor => "compositor does not expose wl_compositor"@,
            SetupError::NoShm => "compositor does not expose wl_shm"@,
            SetupError::NoLayerShell => "compositor does not expose zwlr_layer_shell_v1"@,
            SetupError::NoOutput => "compositor exposed no wl_output"@,
            SetupError::NeverConfigured => "layer surface never received configure event"@,
            SetupError::NoUsableSize { surface_w, surface_h, mode_w, mode_h } => {
                "layer surface configured but no usable size (configure="@ + decimal(
                    surface_w as nat,
                ) + "/"@ + decimal(surface_h as nat) + " mode="@ + decimal(mode_w as nat) + "/"@
                    + decimal(mode_h as nat) + ")"@
            },
        }
    }

    /// The wording of the error.
    pub fn message(&self) -> (r: String)
        ensures
            r@ == self.wording(),
    {
        match *self {
            SetupError::NoCompositor => "compositor does not expose wl_compositor".to_owned(),
            SetupError::NoShm => "compositor does not expose wl_shm".to_owned(),
            SetupError::NoLayerShell => {
                "compositor does not expose zwlr_layer_shell_v1".to_owned()
            },
            SetupError::NoOutput => "compositor exposed no wl_output".to_owned(),
            SetupError::NeverConfigured => {
                "layer surface never received configure event".to_owned()
            },
            SetupError::NoUsableSize { surface_w, surface_h, mode_w, mode_h } => {
                let mut r: String =
                    "layer surface configured but no usable size (configure=".to_owned();
                r.append(decimal_text(surface_w).as_str());
                r.append("/");
                r.append(decimal_text(surface_h).as_str());
                r.append(" mode=");
                r.append(decimal_text(mode_w).as_str());
                r.append("/");
                r.append(decimal_text(mode_h).as_str());
                r.append(")");
                r
            },
        }
    }
}

impl FrameError {
    /// The wording of the error.
    pub open spec fn wording(self) -> Seq<char> {
        "tiny_skia::Pixmap::new("@ + decimal(self.width as nat) + ", "@ + decimal(
            self.height as nat,
        ) + ") failed \u{2014} out of memory for the overlay buffer"@
    }

    /// The wording of the error.
    pub fn message(&self) -> (r: String)
        ensures
            r@ == self.wording(),
    {
        let mut r: String = "tiny_skia::Pixmap::new(".to_owned();
        r.append(decimal_text(self.width).as_str());
        r.append(", ");
        r.append(decimal_text(self.height).as_str());
        r.append(") failed \u{2014} out of memory for the overlay buffer");
        r
    }
}

/// The number that decimal digits stand for.
pub open spec fn number(digits: Seq<char>) -> int
    decreases digits.len(),
{
    if digits.len() == 0 {
        0
    } else {
        number(digits.drop_last()) * 10 + (digits.last() as int - '0' as int)
    }
}

/// A number in decimal reads back as the number, in digits only and without
/// leading zeros.
pub proof fn law_decimal_reads_back(n: nat)
    ensures
        number(decimal(n)) == n,
        decimal(n).len() > 0,
        n > 0 ==> decimal(n)[0] != '0',
        forall|i: int| 0 <= i < decimal(n).len() ==> '0' <= #[trigger] decimal(n)[i] <= '9',
    decreases n,
{
    reveal_with_fuel(number, 2);
    if n < 10 {
        assert(decimal(n).drop_last() =~= Seq::<char>::empty());
    } else {
        law_decimal_reads_back(n / 10);
        assert(decimal(n).drop_last() =~= decimal(n / 10));
    }
}

/// The wording of an unusable size shows the configured size and the mode, and
/// that of a raster that could not be laid out shows its size.
pub proof fn law_wordings_show_sizes(w: u32, h: u32, mode_w: u32, mode_h: u32)
    ensures
        (SetupError::NoUsableSize { surface_w: w, surface_h: h, mode_w, mode_h }).wording()
            == "layer surface configured but no usable size (configure="@ + decimal(w as nat)
            + "/"@ + decimal(h as nat) + " mode="@ + decimal(mode_w as nat) + "/"@ + decimal(
            mode_h as nat,
        ) + ")"@,
        (FrameError { width: w, height: h }).wording() == "tiny_skia::Pixmap::new("@ + decimal(
            w as nat,
        ) + ", "@ + decimal(h as nat)
            + ") failed \u{2014} out of memory for the overlay buffer"@,
{
}

} // verus!
