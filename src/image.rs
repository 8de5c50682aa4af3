//! Camera frames: which encodings are shown, 16-bit depth stretched to 8 bits, and the
//! quarter-turn rotation state.
use crate::input::same_text;
use byteorder::ByteOrder;
use vstd::prelude::*;

verus! {

/// The pixel encodings that can be shown.
#[derive(Clone, Copy, Debug, PartialEq, Eq, Structural)]
pub enum ImageEncoding {
    /// One byte per pixel.
    Mono8,
    /// Three bytes per pixel.
    Rgb8,
    /// Two bytes per pixel, low byte first, stretched to one byte.
    Mono16,
    /// A 32-bit float per pixel, stretched to one byte.
    Float32,
}

impl ImageEncoding {
    /// The encoding named `name`; any other name is not supported.
    pub fn from_name(name: &str) -> (r: Option<ImageEncoding>)
        ensures
            r == (if name@ == "8UC1"@ || name@ == "mono8"@ {
                Some(ImageEncoding::Mono8)
            } else if name@ == "8UC3"@ || name@ == "rgb8"@ {
                Some(ImageEncoding::Rgb8)
            } else if name@ == "16UC1"@ || name@ == "mono16"@ {
                Some(ImageEncoding::Mono16)
            } else if name@ == "32FC1"@ {
                Some(ImageEncoding::Float32)
            } else {
                None
            }),
    {
        if same_text(name, "8UC1") || same_text(name, "mono8") {
            Some(ImageEncoding::Mono8)
        } else if same_text(name, "8UC3") || same_text(name, "rgb8") {
            Some(ImageEncoding::Rgb8)
        } else if same_text(name, "16UC1") || same_text(name, "mono16") {
            Some(ImageEncoding::Mono16)
        } else if same_text(name, "32FC1") {
            Some(ImageEncoding::Float32)
        } else {
            None
        }
    }
}

/// The 16-bit values of `data`, two bytes each, low byte first; a trailing odd byte is ignored.
pub open spec fn mono16_values(data: Seq<u8>) -> Seq<int> {
    Seq::new(data.len() / 2, |i: int| data[2 * i] as int + 256 * data[2 * i + 1] as int)
}

/// The smallest value of `s` (zero when empty).
pub open spec fn least(s: Seq<int>) -> int
    decreases s.len(),
{
    if s.len() <= 1 {
        if s.len() == 0 {
            0
        } else {
            s[0]
        }
    } else {
        let m = least(s.drop_last());
        if s.last() < m {
            s.last()
        } else {
            m
        }
    }
}

/// The largest value of `s` (zero when empty).
pub open spec fn greatest(s: Seq<int>) -> int
    decreases s.len(),
{
    if s.len() <= 1 {
        if s.len() == 0 {
            0
        } else {
            s[0]
        }
    } else {
        let m = greatest(s.drop_last());
        if s.last() > m {
            s.last()
        } else {
            m
        }
    }
}

/// `v` mapped linearly from `[lo, hi]` onto `[0, 255]`, rounded down; zero when `lo == hi`.
pub open spec fn stretched(v: int, lo: int, hi: int) -> int {
    if hi == lo {
        0
    } else {
        (v - lo) * 255 / (hi - lo)
    }
}

/// Relies on byteorder's `LittleEndian::read_u16`: the two bytes at `at`, low byte first.
#[verifier::external_body]
fn read_u16_le(data: &Vec<u8>, at: usize) -> (r: u16)
    requires
        at + 2 <= data@.len(),
    ensures
        r == data@[at as int] as int + 256 * data@[at + 1] as int,
{
    byteorder::LittleEndian::read_u16(&data[at..at + 2])
}

proof fn lemma_bounds_step(s: Seq<int>, i: int)
    requires
        0 <= i < s.len(),
    ensures
        least(s.take(i + 1)) == (if i == 0 || s[i] < least(s.take(i)) {
            s[i]
        } else {
            least(s.take(i))
        }),
        greatest(s.take(i + 1)) == (if i == 0 || s[i] > greatest(s.take(i)) {
            s[i]
        } else {
            greatest(s.take(i))
        }),
{
    assert(s.take(i + 1).drop_last() =~= s.take(i));
    if i == 0 {
        assert(s.take(1)[0] == s[0]);
    }
}

proof fn lemma_bounds_hold(s: Seq<int>)
    ensures
        forall|k: int| 0 <= k < s.len() ==> least(s) <= #[trigger] s[k] <= greatest(s),
    decreases s.len(),
{
    if s.len() > 1 {
        lemma_bounds_hold(s.drop_last());
        assert forall|k: int| 0 <= k < s.len() implies least(s) <= #[trigger] s[k] <= greatest(s) by {
            if k < s.len() - 1 {
                assert(s.drop_last()[k] == s[k]);
            }
        }
    }
}

/// A 16-bit mono frame stretched to 8 bits between its own darkest and brightest pixels.
pub fn stretch_mono16(data: &Vec<u8>) -> (r: Vec<u8>)
    ensures
        r@.len() == mono16_values(data@).len(),
        forall|i: int|
            0 <= i < r@.len() ==> r@[i] == stretched(
                mono16_values(data@)[i],
                least(mono16_values(data@)),
                greatest(mono16_values(data@)),
            ),
{
    let ghost vals = mono16_values(data@);
    let n = data.len() / 2;
    let mut raw: Vec<u16> = Vec::new();
    let mut lo: u16 = 0;
    let mut hi: u16 = 0;
    let mut i: usize = 0;
    let len = data.len();
    assert(n * 2 <= data@.len());
    while i < n
        invariant
            len == data@.len(),
            vals == mono16_values(data@),
            n == vals.len(),
            n * 2 <= data@.len(),
            i <= n,
            raw@.len() == i,
            forall|k: int| 0 <= k < i ==> raw@[k] == vals[k],
            lo == least(vals.take(i as int)),
            hi == greatest(vals.take(i as int)),
        decreases n - i,
    {
        let v = read_u16_le(data, 2 * i);
        assert(vals[i as int] == data@[2 * i as int] as int + 256 * (data@[2 * i as int + 1] as int));
        proof {
            lemma_bounds_step(vals, i as int);
        }
        if i == 0 || v < lo {
            lo = v;
        }
        if i == 0 || v > hi {
            hi = v;
        }
        raw.push(v);
        i += 1;
    }
    assert(vals.take(n as int) =~= vals);
    proof {
        lemma_bounds_hold(vals);
    }
    let mut out: Vec<u8> = Vec::new();
    let mut j: usize = 0;
    while j < n
        invariant
            n == vals.len(),
            raw@.len() == n,
            forall|k: int| 0 <= k < n ==> raw@[k] == vals[k],
            forall|k: int| 0 <= k < n ==> lo <= #[trigger] vals[k] <= hi,
            lo == least(vals),
            hi == greatest(vals),
            j <= n,
            out@.len() == j,
            forall|k: int| 0 <= k < j ==> out@[k] == stretched(vals[k], lo as int, hi as int),
        decreases n - j,
    {
        let v = raw[j];
        assert(lo <= vals[j as int] <= hi);
        let b: u8 = if hi == lo {
            0
        } else {
            let num: u32 = (v - lo) as u32 * 255;
            let den: u32 = (hi - lo) as u32;
            assert(num / den <= 255) by (nonlinear_arith)
                requires
                    num == (v - lo) * 255,
                    den == hi - lo,
                    v <= hi,
                    den > 0,
            ;
            (num / den) as u8
        };
        out.push(b);
        j += 1;
    }
    out
}

/// The rotation in degrees after turning by `angle`: below zero wraps to 270, above 270 to 0.
pub fn rotated(rotation: i64, angle: i64) -> (r: i64)
    ensures
        r == (if rotation + angle < 0 {
            270
        } else if rotation + angle > 270 {
            0
        } else {
            rotation + angle
        }),
{
    let sum: i128 = rotation as i128 + angle as i128;
    if sum < 0 {
        270
    } else if sum > 270 {
        0
    } else {
        sum as i64
    }
}

} // verus!
