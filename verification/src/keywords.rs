//! The keywords of the color syntax, as byte strings.
use vstd::prelude::*;

use crate::colors::bytes_eq;

verus! {

/// The keyword `rgb`.
pub open spec fn kw_rgb() -> Seq<u8> {
    seq![0x72u8, 0x67, 0x62]
}

/// Whether `name` is the keyword `rgb`.
pub fn is_kw_rgb(name: &[u8]) -> (b: bool)
    ensures
        b == (name@ == kw_rgb()),
{
    let k: [u8; 3] = [0x72, 0x67, 0x62];
    proof {
        assert(k@ =~= kw_rgb());
    }
    bytes_eq(name, &k)
}

/// The keyword `rgba`.
pub open spec fn kw_rgba() -> Seq<u8> {
    seq![0x72u8, 0x67, 0x62, 0x61]
}

/// Whether `name` is the keyword `rgba`.
pub fn is_kw_rgba(name: &[u8]) -> (b: bool)
    ensures
        b == (name@ == kw_rgba()),
{
    let k: [u8; 4] = [0x72, 0x67, 0x62, 0x61];
    proof {
        assert(k@ =~= kw_rgba());
    }
    bytes_eq(name, &k)
}

/// The keyword `hsl`.
pub open spec fn kw_hsl() -> Seq<u8> {
    seq![0x68u8, 0x73, 0x6c]
}

/// Whether `name` is the keyword `hsl`.
pub fn is_kw_hsl(name: &[u8]) -> (b: bool)
    ensures
        b == (name@ == kw_hsl()),
{
    let k: [u8; 3] = [0x68, 0x73, 0x6c];
    proof {
        assert(k@ =~= kw_hsl());
    }
    bytes_eq(name, &k)
}

/// The keyword `hsla`.
pub open spec fn kw_hsla() -> Seq<u8> {
    seq![0x68u8, 0x73, 0x6c, 0x61]
}

/// Whether `name` is the keyword `hsla`.
pub fn is_kw_hsla(name: &[u8]) -> (b: bool)
    ensures
        b == (name@ == kw_hsla()),
{
    let k: [u8; 4] = [0x68, 0x73, 0x6c, 0x61];
    proof {
        assert(k@ =~= kw_hsla());
    }
    bytes_eq(name, &k)
}

/// The keyword `color-mix`.
pub open spec fn kw_color_mix() -> Seq<u8> {
    seq![0x63u8, 0x6f, 0x6c, 0x6f, 0x72, 0x2d, 0x6d, 0x69, 0x78]
}

/// Whether `name` is the keyword `color-mix`.
pub fn is_kw_color_mix(name: &[u8]) -> (b: bool)
    ensures
        b == (name@ == kw_color_mix()),
{
    let k: [u8; 9] = [0x63, 0x6f, 0x6c, 0x6f, 0x72, 0x2d, 0x6d, 0x69, 0x78];
    proof {
        assert(k@ =~= kw_color_mix());
    }
    bytes_eq(name, &k)
}

/// The keyword `in`.
pub open spec fn kw_in() -> Seq<u8> {
    seq![0x69u8, 0x6e]
}

/// Whether `name` is the keyword `in`.
pub fn is_kw_in(name: &[u8]) -> (b: bool)
    ensures
        b == (name@ == kw_in()),
{
    let k: [u8; 2] = [0x69, 0x6e];
    proof {
        assert(k@ =~= kw_in());
    }
    bytes_eq(name, &k)
}

/// The keyword `hue`.
pub open spec fn kw_hue() -> Seq<u8> {
    seq![0x68u8, 0x75, 0x65]
}

/// Whether `name` is the keyword `hue`.
pub fn is_kw_hue(name: &[u8]) -> (b: bool)
    ensures
        b == (name@ == kw_hue()),
{
    let k: [u8; 3] = [0x68, 0x75, 0x65];
    proof {
        assert(k@ =~= kw_hue());
    }
    bytes_eq(name, &k)
}

/// The keyword `srgb`.
pub open spec fn kw_srgb() -> Seq<u8> {
    seq![0x73u8, 0x72, 0x67, 0x62]
}

/// Whether `name` is the keyword `srgb`.
pub fn is_kw_srgb(name: &[u8]) -> (b: bool)
    ensures
        b == (name@ == kw_srgb()),
{
    let k: [u8; 4] = [0x73, 0x72, 0x67, 0x62];
    proof {
        assert(k@ =~= kw_srgb());
    }
    bytes_eq(name, &k)
}

/// The keyword `srgb-linear`.
pub open spec fn kw_srgb_linear() -> Seq<u8> {
    seq![0x73u8, 0x72, 0x67, 0x62, 0x2d, 0x6c, 0x69, 0x6e, 0x65, 0x61, 0x72]
}

/// Whether `name` is the keyword `srgb-linear`.
pub fn is_kw_srgb_linear(name: &[u8]) -> (b: bool)
    ensures
        b == (name@ == kw_srgb_linear()),
{
    let k: [u8; 11] = [0x73, 0x72, 0x67, 0x62, 0x2d, 0x6c, 0x69, 0x6e, 0x65, 0x61, 0x72];
    proof {
        assert(k@ =~= kw_srgb_linear());
    }
    bytes_eq(name, &k)
}

/// The keyword `lab`.
pub open spec fn kw_lab() -> Seq<u8> {
    seq![0x6cu8, 0x61, 0x62]
}

/// Whether `name` is the keyword `lab`.
pub fn is_kw_lab(name: &[u8]) -> (b: bool)
    ensures
        b == (name@ == kw_lab()),
{
    let k: [u8; 3] = [0x6c, 0x61, 0x62];
    proof {
        assert(k@ =~= kw_lab());
    }
    bytes_eq(name, &k)
}

/// The keyword `oklab`.
pub open spec fn kw_oklab() -> Seq<u8> {
    seq![0x6fu8, 0x6b, 0x6c, 0x61, 0x62]
}

/// Whether `name` is the keyword `oklab`.
pub fn is_kw_oklab(name: &[u8]) -> (b: bool)
    ensures
        b == (name@ == kw_oklab()),
{
    let k: [u8; 5] = [0x6f, 0x6b, 0x6c, 0x61, 0x62];
    proof {
        assert(k@ =~= kw_oklab());
    }
    bytes_eq(name, &k)
}

/// The keyword `lch`.
pub open spec fn kw_lch() -> Seq<u8> {
    seq![0x6cu8, 0x63, 0x68]
}

/// Whether `name` is the keyword `lch`.
pub fn is_kw_lch(name: &[u8]) -> (b: bool)
    ensures
        b == (name@ == kw_lch()),
{
    let k: [u8; 3] = [0x6c, 0x63, 0x68];
    proof {
        assert(k@ =~= kw_lch());
    }
    bytes_eq(name, &k)
}

/// The keyword `oklch`.
pub open spec fn kw_oklch() -> Seq<u8> {
    seq![0x6fu8, 0x6b, 0x6c, 0x63, 0x68]
}

/// Whether `name` is the keyword `oklch`.
pub fn is_kw_oklch(name: &[u8]) -> (b: bool)
    ensures
        b == (name@ == kw_oklch()),
{
    let k: [u8; 5] = [0x6f, 0x6b, 0x6c, 0x63, 0x68];
    proof {
        assert(k@ =~= kw_oklch());
    }
    bytes_eq(name, &k)
}

/// The keyword `hwb`.
pub open spec fn kw_hwb() -> Seq<u8> {
    seq![0x68u8, 0x77, 0x62]
}

/// Whether `name` is the keyword `hwb`.
pub fn is_kw_hwb(name: &[u8]) -> (b: bool)
    ensures
        b == (name@ == kw_hwb()),
{
    let k: [u8; 3] = [0x68, 0x77, 0x62];
    proof {
        assert(k@ =~= kw_hwb());
    }
    bytes_eq(name, &k)
}

/// The keyword `shorter`.
pub open spec fn kw_shorter() -> Seq<u8> {
    seq![0x73u8, 0x68, 0x6f, 0x72, 0x74, 0x65, 0x72]
}

/// Whether `name` is the keyword `shorter`.
pub fn is_kw_shorter(name: &[u8]) -> (b: bool)
    ensures
        b == (name@ == kw_shorter()),
{
    let k: [u8; 7] = [0x73, 0x68, 0x6f, 0x72, 0x74, 0x65, 0x72];
    proof {
        assert(k@ =~= kw_shorter());
    }
    bytes_eq(name, &k)
}

/// The keyword `longer`.
pub open spec fn kw_longer() -> Seq<u8> {
    seq![0x6cu8, 0x6f, 0x6e, 0x67, 0x65, 0x72]
}

/// Whether `name` is the keyword `longer`.
pub fn is_kw_longer(name: &[u8]) -> (b: bool)
    ensures
        b == (name@ == kw_longer()),
{
    let k: [u8; 6] = [0x6c, 0x6f, 0x6e, 0x67, 0x65, 0x72];
    proof {
        assert(k@ =~= kw_longer());
    }
    bytes_eq(name, &k)
}

/// The keyword `increasing`.
pub open spec fn kw_increasing() -> Seq<u8> {
    seq![0x69u8, 0x6e, 0x63, 0x72, 0x65, 0x61, 0x73, 0x69, 0x6e, 0x67]
}

/// Whether `name` is the keyword `increasing`.
pub fn is_kw_increasing(name: &[u8]) -> (b: bool)
    ensures
        b == (name@ == kw_increasing()),
{
    let k: [u8; 10] = [0x69, 0x6e, 0x63, 0x72, 0x65, 0x61, 0x73, 0x69, 0x6e, 0x67];
    proof {
        assert(k@ =~= kw_increasing());
    }
    bytes_eq(name, &k)
}

/// The keyword `decreasing`.
pub open spec fn kw_decreasing() -> Seq<u8> {
    seq![0x64u8, 0x65, 0x63, 0x72, 0x65, 0x61, 0x73, 0x69, 0x6e, 0x67]
}

/// Whether `name` is the keyword `decreasing`.
pub fn is_kw_decreasing(name: &[u8]) -> (b: bool)
    ensures
        b == (name@ == kw_decreasing()),
{
    let k: [u8; 10] = [0x64, 0x65, 0x63, 0x72, 0x65, 0x61, 0x73, 0x69, 0x6e, 0x67];
    proof {
        assert(k@ =~= kw_decreasing());
    }
    bytes_eq(name, &k)
}

} // verus!
