//! The CSS named colors.
use vstd::prelude::*;

use crate::color::Color;

verus! {

/// Whether two byte strings are equal.
pub fn bytes_eq(a: &[u8], b: &[u8]) -> (r: bool)
    ensures
        r == (a@ == b@),
{
    if a.len() != b.len() {
        return false;
    }
    let mut i: usize = 0;
    while i < a.len()
        invariant
            a.len() == b.len(),
            i <= a.len(),
            forall|j: int| 0 <= j < i ==> a@[j] == b@[j],
        decreases a.len() - i,
    {
        if a[i] != b[i] {
            return false;
        }
        i = i + 1;
    }
    assert(a@ =~= b@);
    true
}

/// The color that a lowercase CSS color keyword names, if any. Opaque, to
/// keep proofs about the parser small; `reveal(named_color)` unfolds it.
#[verifier::opaque]
pub open spec fn named_color(name: Seq<u8>) -> Option<Color> {
    if name.len() == 0 {
        None
    } else {
        if name[0] == 0x61 {
            named_color_a(name)
        } else if name[0] == 0x62 {
            named_color_b(name)
        } else if name[0] == 0x63 {
            named_color_c(name)
        } else if name[0] == 0x64 {
            named_color_d(name)
        } else if name[0] == 0x66 {
            named_color_f(name)
        } else if name[0] == 0x67 {
            named_color_g(name)
        } else if name[0] == 0x68 {
            named_color_h(name)
        } else if name[0] == 0x69 {
            named_color_i(name)
        } else if name[0] == 0x6b {
            named_color_k(name)
        } else if name[0] == 0x6c {
            named_color_l(name)
        } else if name[0] == 0x6d {
            named_color_m(name)
        } else if name[0] == 0x6e {
            named_color_n(name)
        } else if name[0] == 0x6f {
            named_color_o(name)
        } else if name[0] == 0x70 {
            named_color_p(name)
        } else if name[0] == 0x72 {
            named_color_r(name)
        } else if name[0] == 0x73 {
            named_color_s(name)
        } else if name[0] == 0x74 {
            named_color_t(name)
        } else if name[0] == 0x76 {
            named_color_v(name)
        } else if name[0] == 0x77 {
            named_color_w(name)
        } else if name[0] == 0x79 {
            named_color_y(name)
        } else {
            None
        }
    }
}

pub open spec fn named_color_a(name: Seq<u8>) -> Option<Color> {
    if name == seq![0x61u8, 0x6c, 0x69, 0x63, 0x65, 0x62, 0x6c, 0x75, 0x65] {
        Some(Color { red: 240, green: 248, blue: 255, alpha: 255 })
    } else if name == seq![0x61u8, 0x6e, 0x74, 0x69, 0x71, 0x75, 0x65, 0x77, 0x68, 0x69, 0x74, 0x65] {
        Some(Color { red: 250, green: 235, blue: 215, alpha: 255 })
    } else if name == seq![0x61u8, 0x71, 0x75, 0x61] {
        Some(Color { red: 0, green: 255, blue: 255, alpha: 255 })
    } else if name == seq![0x61u8, 0x71, 0x75, 0x61, 0x6d, 0x61, 0x72, 0x69, 0x6e, 0x65] {
        Some(Color { red: 127, green: 255, blue: 212, alpha: 255 })
    } else if name == seq![0x61u8, 0x7a, 0x75, 0x72, 0x65] {
        Some(Color { red: 240, green: 255, blue: 255, alpha: 255 })
    } else {
        None
    }
}

pub open spec fn named_color_b(name: Seq<u8>) -> Option<Color> {
    if name == seq![0x62u8, 0x65, 0x69, 0x67, 0x65] {
        Some(Color { red: 245, green: 245, blue: 220, alpha: 255 })
    } else if name == seq![0x62u8, 0x69, 0x73, 0x71, 0x75, 0x65] {
        Some(Color { red: 255, green: 228, blue: 196, alpha: 255 })
    } else if name == seq![0x62u8, 0x6c, 0x61, 0x63, 0x6b] {
        Some(Color { red: 0, green: 0, blue: 0, alpha: 255 })
    } else if name == seq![0x62u8, 0x6c, 0x61, 0x6e, 0x63, 0x68, 0x65, 0x64, 0x61, 0x6c, 0x6d, 0x6f, 0x6e, 0x64] {
        Some(Color { red: 255, green: 235, blue: 205, alpha: 255 })
    } else if name == seq![0x62u8, 0x6c, 0x75, 0x65] {
        Some(Color { red: 0, green: 0, blue: 255, alpha: 255 })
    } else if name == seq![0x62u8, 0x6c, 0x75, 0x65, 0x76, 0x69, 0x6f, 0x6c, 0x65, 0x74] {
        Some(Color { red: 138, green: 43, blue: 226, alpha: 255 })
    } else if name == seq![0x62u8, 0x72, 0x6f, 0x77, 0x6e] {
        Some(Color { red: 165, green: 42, blue: 42, alpha: 255 })
    } else if name == seq![0x62u8, 0x75, 0x72, 0x6c, 0x79, 0x77, 0x6f, 0x6f, 0x64] {
        Some(Color { red: 222, green: 184, blue: 135, alpha: 255 })
    } else {
        None
    }
}

pub open spec fn named_color_c(name: Seq<u8>) -> Option<Color> {
    if name == seq![0x63u8, 0x61, 0x64, 0x65, 0x74, 0x62, 0x6c, 0x75, 0x65] {
        Some(Color { red: 95, green: 158, blue: 160, alpha: 255 })
    } else if name == seq![0x63u8, 0x68, 0x61, 0x72, 0x74, 0x72, 0x65, 0x75, 0x73, 0x65] {
        Some(Color { red: 127, green: 255, blue: 0, alpha: 255 })
    } else if name == seq![0x63u8, 0x68, 0x6f, 0x63, 0x6f, 0x6c, 0x61, 0x74, 0x65] {
        Some(Color { red: 210, green: 105, blue: 30, alpha: 255 })
    } else if name == seq![0x63u8, 0x6f, 0x72, 0x61, 0x6c] {
        Some(Color { red: 255, green: 127, blue: 80, alpha: 255 })
    } else if name == seq![0x63u8, 0x6f, 0x72, 0x6e, 0x66, 0x6c, 0x6f, 0x77, 0x65, 0x72, 0x62, 0x6c, 0x75, 0x65] {
        Some(Color { red: 100, green: 149, blue: 237, alpha: 255 })
    } else if name == seq![0x63u8, 0x6f, 0x72, 0x6e, 0x73, 0x69, 0x6c, 0x6b] {
        Some(Color { red: 255, green: 248, blue: 220, alpha: 255 })
    } else if name == seq![0x63u8, 0x72, 0x69, 0x6d, 0x73, 0x6f, 0x6e] {
        Some(Color { red: 220, green: 20, blue: 60, alpha: 255 })
    } else if name == seq![0x63u8, 0x79, 0x61, 0x6e] {
        Some(Color { red: 0, green: 255, blue: 255, alpha: 255 })
    } else {
        None
    }
}

pub open spec fn named_color_d(name: Seq<u8>) -> Option<Color> {
    if name == seq![0x64u8, 0x61, 0x72, 0x6b, 0x62, 0x6c, 0x75, 0x65] {
        Some(Color { red: 0, green: 0, blue: 139, alpha: 255 })
    } else if name == seq![0x64u8, 0x61, 0x72, 0x6b, 0x63, 0x79, 0x61, 0x6e] {
        Some(Color { red: 0, green: 139, blue: 139, alpha: 255 })
    } else if name == seq![0x64u8, 0x61, 0x72, 0x6b, 0x67, 0x6f, 0x6c, 0x64, 0x65, 0x6e, 0x72, 0x6f, 0x64] {
        Some(Color { red: 184, green: 134, blue: 11, alpha: 255 })
    } else if name == seq![0x64u8, 0x61, 0x72, 0x6b, 0x67, 0x72, 0x61, 0x79] {
        Some(Color { red: 169, green: 169, blue: 169, alpha: 255 })
    } else if name == seq![0x64u8, 0x61, 0x72, 0x6b, 0x67, 0x72, 0x65, 0x65, 0x6e] {
        Some(Color { red: 0, green: 100, blue: 0, alpha: 255 })
    } else if name == seq![0x64u8, 0x61, 0x72, 0x6b, 0x67, 0x72, 0x65, 0x79] {
        Some(Color { red: 169, green: 169, blue: 169, alpha: 255 })
    } else if name == seq![0x64u8, 0x61, 0x72, 0x6b, 0x6b, 0x68, 0x61, 0x6b, 0x69] {
        Some(Color { red: 189, green: 183, blue: 107, alpha: 255 })
    } else if name == seq![0x64u8, 0x61, 0x72, 0x6b, 0x6d, 0x61, 0x67, 0x65, 0x6e, 0x74, 0x61] {
        Some(Color { red: 139, green: 0, blue: 139, alpha: 255 })
    } else if name == seq![0x64u8, 0x61, 0x72, 0x6b, 0x6f, 0x6c, 0x69, 0x76, 0x65, 0x67, 0x72, 0x65, 0x65, 0x6e] {
        Some(Color { red: 85, green: 107, blue: 47, alpha: 255 })
    } else if name == seq![0x64u8, 0x61, 0x72, 0x6b, 0x6f, 0x72, 0x61, 0x6e, 0x67, 0x65] {
        Some(Color { red: 255, green: 140, blue: 0, alpha: 255 })
    } else if name == seq![0x64u8, 0x61, 0x72, 0x6b, 0x6f, 0x72, 0x63, 0x68, 0x69, 0x64] {
        Some(Color { red: 153, green: 50, blue: 204, alpha: 255 })
    } else if name == seq![0x64u8, 0x61, 0x72, 0x6b, 0x72, 0x65, 0x64] {
        Some(Color { red: 139, green: 0, blue: 0, alpha: 255 })
    } else if name == seq![0x64u8, 0x61, 0x72, 0x6b, 0x73, 0x61, 0x6c, 0x6d, 0x6f, 0x6e] {
        Some(Color { red: 233, green: 150, blue: 122, alpha: 255 })
    } else if name == seq![0x64u8, 0x61, 0x72, 0x6b, 0x73, 0x65, 0x61, 0x67, 0x72, 0x65, 0x65, 0x6e] {
        Some(Color { red: 143, green: 188, blue: 143, alpha: 255 })
    } else if name == seq![0x64u8, 0x61, 0x72, 0x6b, 0x73, 0x6c, 0x61, 0x74, 0x65, 0x62, 0x6c, 0x75, 0x65] {
        Some(Color { red: 72, green: 61, blue: 139, alpha: 255 })
    } else if name == seq![0x64u8, 0x61, 0x72, 0x6b, 0x73, 0x6c, 0x61, 0x74, 0x65, 0x67, 0x72, 0x61, 0x79] {
        Some(Color { red: 47, green: 79, blue: 79, alpha: 255 })
    } else if name == seq![0x64u8, 0x61, 0x72, 0x6b, 0x73, 0x6c, 0x61, 0x74, 0x65, 0x67, 0x72, 0x65, 0x79] {
        Some(Color { red: 47, green: 79, blue: 79, alpha: 255 })
    } else if name == seq![0x64u8, 0x61, 0x72, 0x6b, 0x74, 0x75, 0x72, 0x71, 0x75, 0x6f, 0x69, 0x73, 0x65] {
        Some(Color { red: 0, green: 206, blue: 209, alpha: 255 })
    } else if name == seq![0x64u8, 0x61, 0x72, 0x6b, 0x76, 0x69, 0x6f, 0x6c, 0x65, 0x74] {
        Some(Color { red: 148, green: 0, blue: 211, alpha: 255 })
    } else if name == seq![0x64u8, 0x65, 0x65, 0x70, 0x70, 0x69, 0x6e, 0x6b] {
        Some(Color { red: 255, green: 20, blue: 147, alpha: 255 })
    } else if name == seq![0x64u8, 0x65, 0x65, 0x70, 0x73, 0x6b, 0x79, 0x62, 0x6c, 0x75, 0x65] {
        Some(Color { red: 0, green: 191, blue: 255, alpha: 255 })
    } else if name == seq![0x64u8, 0x69, 0x6d, 0x67, 0x72, 0x61, 0x79] {
        Some(Color { red: 105, green: 105, blue: 105, alpha: 255 })
    } else if name == seq![0x64u8, 0x69, 0x6d, 0x67, 0x72, 0x65, 0x79] {
        Some(Color { red: 105, green: 105, blue: 105, alpha: 255 })
    } else if name == seq![0x64u8, 0x6f, 0x64, 0x67, 0x65, 0x72, 0x62, 0x6c, 0x75, 0x65] {
        Some(Color { red: 30, green: 144, blue: 255, alpha: 255 })
    } else {
        None
    }
}

pub open spec fn named_color_f(name: Seq<u8>) -> Option<Color> {
    if name == seq![0x66u8, 0x69, 0x72, 0x65, 0x62, 0x72, 0x69, 0x63, 0x6b] {
        Some(Color { red: 178, green: 34, blue: 34, alpha: 255 })
    } else if name == seq![0x66u8, 0x6c, 0x6f, 0x72, 0x61, 0x6c, 0x77, 0x68, 0x69, 0x74, 0x65] {
        Some(Color { red: 255, green: 250, blue: 240, alpha: 255 })
    } else if name == seq![0x66u8, 0x6f, 0x72, 0x65, 0x73, 0x74, 0x67, 0x72, 0x65, 0x65, 0x6e] {
        Some(Color { red: 34, green: 139, blue: 34, alpha: 255 })
    } else if name == seq![0x66u8, 0x75, 0x63, 0x68, 0x73, 0x69, 0x61] {
        Some(Color { red: 255, green: 0, blue: 255, alpha: 255 })
    } else {
        None
    }
}

pub open spec fn named_color_g(name: Seq<u8>) -> Option<Color> {
    if name == seq![0x67u8, 0x61, 0x69, 0x6e, 0x73, 0x62, 0x6f, 0x72, 0x6f] {
        Some(Color { red: 220, green: 220, blue: 220, alpha: 255 })
    } else if name == seq![0x67u8, 0x68, 0x6f, 0x73, 0x74, 0x77, 0x68, 0x69, 0x74, 0x65] {
        Some(Color { red: 248, green: 248, blue: 255, alpha: 255 })
    } else if name == seq![0x67u8, 0x6f, 0x6c, 0x64] {
        Some(Color { red: 255, green: 215, blue: 0, alpha: 255 })
    } else if name == seq![0x67u8, 0x6f, 0x6c, 0x64, 0x65, 0x6e, 0x72, 0x6f, 0x64] {
        Some(Color { red: 218, green: 165, blue: 32, alpha: 255 })
    } else if name == seq![0x67u8, 0x72, 0x61, 0x79] {
        Some(Color { red: 128, green: 128, blue: 128, alpha: 255 })
    } else if name == seq![0x67u8, 0x72, 0x65, 0x65, 0x6e] {
        Some(Color { red: 0, green: 128, blue: 0, alpha: 255 })
    } else if name == seq![0x67u8, 0x72, 0x65, 0x65, 0x6e, 0x79, 0x65, 0x6c, 0x6c, 0x6f, 0x77] {
        Some(Color { red: 173, green: 255, blue: 47, alpha: 255 })
    } else if name == seq![0x67u8, 0x72, 0x65, 0x79] {
        Some(Color { red: 128, green: 128, blue: 128, alpha: 255 })
    } else {
        None
    }
}

pub open spec fn named_color_h(name: Seq<u8>) -> Option<Color> {
    if name == seq![0x68u8, 0x6f, 0x6e, 0x65, 0x79, 0x64, 0x65, 0x77] {
        Some(Color { red: 240, green: 255, blue: 240, alpha: 255 })
    } else if name == seq![0x68u8, 0x6f, 0x74, 0x70, 0x69, 0x6e, 0x6b] {
        Some(Color { red: 255, green: 105, blue: 180, alpha: 255 })
    } else {
        None
    }
}

pub open spec fn named_color_i(name: Seq<u8>) -> Option<Color> {
    if name == seq![0x69u8, 0x6e, 0x64, 0x69, 0x61, 0x6e, 0x72, 0x65, 0x64] {
        Some(Color { red: 205, green: 92, blue: 92, alpha: 255 })
    } else if name == seq![0x69u8, 0x6e, 0x64, 0x69, 0x67, 0x6f] {
        Some(Color { red: 75, green: 0, blue: 130, alpha: 255 })
    } else if name == seq![0x69u8, 0x76, 0x6f, 0x72, 0x79] {
        Some(Color { red: 255, green: 255, blue: 240, alpha: 255 })
    } else {
        None
    }
}

pub open spec fn named_color_k(name: Seq<u8>) -> Option<Color> {
    if name == seq![0x6bu8, 0x68, 0x61, 0x6b, 0x69] {
        Some(Color { red: 240, green: 230, blue: 140, alpha: 255 })
    } else {
        None
    }
}

pub open spec fn named_color_l(name: Seq<u8>) -> Option<Color> {
    if name == seq![0x6cu8, 0x61, 0x76, 0x65, 0x6e, 0x64, 0x65, 0x72] {
        Some(Color { red: 230, green: 230, blue: 250, alpha: 255 })
    } else if name == seq![0x6cu8, 0x61, 0x76, 0x65, 0x6e, 0x64, 0x65, 0x72, 0x62, 0x6c, 0x75, 0x73, 0x68] {
        Some(Color { red: 255, green: 240, blue: 245, alpha: 255 })
    } else if name == seq![0x6cu8, 0x61, 0x77, 0x6e, 0x67, 0x72, 0x65, 0x65, 0x6e] {
        Some(Color { red: 124, green: 252, blue: 0, alpha: 255 })
    } else if name == seq![0x6cu8, 0x65, 0x6d, 0x6f, 0x6e, 0x63, 0x68, 0x69, 0x66, 0x66, 0x6f, 0x6e] {
        Some(Color { red: 255, green: 250, blue: 205, alpha: 255 })
    } else if name == seq![0x6cu8, 0x69, 0x67, 0x68, 0x74, 0x62, 0x6c, 0x75, 0x65] {
        Some(Color { red: 173, green: 216, blue: 230, alpha: 255 })
    } else if name == seq![0x6cu8, 0x69, 0x67, 0x68, 0x74, 0x63, 0x6f, 0x72, 0x61, 0x6c] {
        Some(Color { red: 240, green: 128, blue: 128, alpha: 255 })
    } else if name == seq![0x6cu8, 0x69, 0x67, 0x68, 0x74, 0x63, 0x79, 0x61, 0x6e] {
        Some(Color { red: 224, green: 255, blue: 255, alpha: 255 })
    } else if name == seq![0x6cu8, 0x69, 0x67, 0x68, 0x74, 0x67, 0x6f, 0x6c, 0x64, 0x65, 0x6e, 0x72, 0x6f, 0x64, 0x79, 0x65, 0x6c, 0x6c, 0x6f, 0x77] {
        Some(Color { red: 250, green: 250, blue: 210, alpha: 255 })
    } else if name == seq![0x6cu8, 0x69, 0x67, 0x68, 0x74, 0x67, 0x72, 0x61, 0x79] {
        Some(Color { red: 211, green: 211, blue: 211, alpha: 255 })
    } else if name == seq![0x6cu8, 0x69, 0x67, 0x68, 0x74, 0x67, 0x72, 0x65, 0x65, 0x6e] {
        Some(Color { red: 144, green: 238, blue: 144, alpha: 255 })
    } else if name == seq![0x6cu8, 0x69, 0x67, 0x68, 0x74, 0x67, 0x72, 0x65, 0x79] {
        Some(Color { red: 211, green: 211, blue: 211, alpha: 255 })
    } else if name == seq![0x6cu8, 0x69, 0x67, 0x68, 0x74, 0x70, 0x69, 0x6e, 0x6b] {
        Some(Color { red: 255, green: 182, blue: 193, alpha: 255 })
    } else if name == seq![0x6cu8, 0x69, 0x67, 0x68, 0x74, 0x73, 0x61, 0x6c, 0x6d, 0x6f, 0x6e] {
        Some(Color { red: 255, green: 160, blue: 122, alpha: 255 })
    } else if name == seq![0x6cu8, 0x69, 0x67, 0x68, 0x74, 0x73, 0x65, 0x61, 0x67, 0x72, 0x65, 0x65, 0x6e] {
        Some(Color { red: 32, green: 178, blue: 170, alpha: 255 })
    } else if name == seq![0x6cu8, 0x69, 0x67, 0x68, 0x74, 0x73, 0x6b, 0x79, 0x62, 0x6c, 0x75, 0x65] {
        Some(Color { red: 135, green: 206, blue: 250, alpha: 255 })
    } else if name == seq![0x6cu8, 0x69, 0x67, 0x68, 0x74, 0x73, 0x6c, 0x61, 0x74, 0x65, 0x67, 0x72, 0x61, 0x79] {
        Some(Color { red: 119, green: 136, blue: 153, alpha: 255 })
    } else if name == seq![0x6cu8, 0x69, 0x67, 0x68, 0x74, 0x73, 0x6c, 0x61, 0x74, 0x65, 0x67, 0x72, 0x65, 0x79] {
        Some(Color { red: 119, green: 136, blue: 153, alpha: 255 })
    } else if name == seq![0x6cu8, 0x69, 0x67, 0x68, 0x74, 0x73, 0x74, 0x65, 0x65, 0x6c, 0x62, 0x6c, 0x75, 0x65] {
        Some(Color { red: 176, green: 196, blue: 222, alpha: 255 })
    } else if name == seq![0x6cu8, 0x69, 0x67, 0x68, 0x74, 0x79, 0x65, 0x6c, 0x6c, 0x6f, 0x77] {
        Some(Color { red: 255, green: 255, blue: 224, alpha: 255 })
    } else if name == seq![0x6cu8, 0x69, 0x6d, 0x65] {
        Some(Color { red: 0, green: 255, blue: 0, alpha: 255 })
    } else if name == seq![0x6cu8, 0x69, 0x6d, 0x65, 0x67, 0x72, 0x65, 0x65, 0x6e] {
        Some(Color { red: 50, green: 205, blue: 50, alpha: 255 })
    } else if name == seq![0x6cu8, 0x69, 0x6e, 0x65, 0x6e] {
        Some(Color { red: 250, green: 240, blue: 230, alpha: 255 })
    } else {
        None
    }
}

pub open spec fn named_color_m(name: Seq<u8>) -> Option<Color> {
    if name == seq![0x6du8, 0x61, 0x67, 0x65, 0x6e, 0x74, 0x61] {
        Some(Color { red: 255, green: 0, blue: 255, alpha: 255 })
    } else if name == seq![0x6du8, 0x61, 0x72, 0x6f, 0x6f, 0x6e] {
        Some(Color { red: 128, green: 0, blue: 0, alpha: 255 })
    } else if name == seq![0x6du8, 0x65, 0x64, 0x69, 0x75, 0x6d, 0x61, 0x71, 0x75, 0x61, 0x6d, 0x61, 0x72, 0x69, 0x6e, 0x65] {
        Some(Color { red: 102, green: 205, blue: 170, alpha: 255 })
    } else if name == seq![0x6du8, 0x65, 0x64, 0x69, 0x75, 0x6d, 0x62, 0x6c, 0x75, 0x65] {
        Some(Color { red: 0, green: 0, blue: 205, alpha: 255 })
    } else if name == seq![0x6du8, 0x65, 0x64, 0x69, 0x75, 0x6d, 0x6f, 0x72, 0x63, 0x68, 0x69, 0x64] {
        Some(Color { red: 186, green: 85, blue: 211, alpha: 255 })
    } else if name == seq![0x6du8, 0x65, 0x64, 0x69, 0x75, 0x6d, 0x70, 0x75, 0x72, 0x70, 0x6c, 0x65] {
        Some(Color { red: 147, green: 112, blue: 219, alpha: 255 })
    } else if name == seq![0x6du8, 0x65, 0x64, 0x69, 0x75, 0x6d, 0x73, 0x65, 0x61, 0x67, 0x72, 0x65, 0x65, 0x6e] {
        Some(Color { red: 60, green: 179, blue: 113, alpha: 255 })
    } else if name == seq![0x6du8, 0x65, 0x64, 0x69, 0x75, 0x6d, 0x73, 0x6c, 0x61, 0x74, 0x65, 0x62, 0x6c, 0x75, 0x65] {
        Some(Color { red: 123, green: 104, blue: 238, alpha: 255 })
    } else if name == seq![0x6du8, 0x65, 0x64, 0x69, 0x75, 0x6d, 0x73, 0x70, 0x72, 0x69, 0x6e, 0x67, 0x67, 0x72, 0x65, 0x65, 0x6e] {
        Some(Color { red: 0, green: 250, blue: 154, alpha: 255 })
    } else if name == seq![0x6du8, 0x65, 0x64, 0x69, 0x75, 0x6d, 0x74, 0x75, 0x72, 0x71, 0x75, 0x6f, 0x69, 0x73, 0x65] {
        Some(Color { red: 72, green: 209, blue: 204, alpha: 255 })
    } else if name == seq![0x6du8, 0x65, 0x64, 0x69, 0x75, 0x6d, 0x76, 0x69, 0x6f, 0x6c, 0x65, 0x74, 0x72, 0x65, 0x64] {
        Some(Color { red: 199, green: 21, blue: 133, alpha: 255 })
    } else if name == seq![0x6du8, 0x69, 0x64, 0x6e, 0x69, 0x67, 0x68, 0x74, 0x62, 0x6c, 0x75, 0x65] {
        Some(Color { red: 25, green: 25, blue: 112, alpha: 255 })
    } else if name == seq![0x6du8, 0x69, 0x6e, 0x74, 0x63, 0x72, 0x65, 0x61, 0x6d] {
        Some(Color { red: 245, green: 255, blue: 250, alpha: 255 })
    } else if name == seq![0x6du8, 0x69, 0x73, 0x74, 0x79, 0x72, 0x6f, 0x73, 0x65] {
        Some(Color { red: 255, green: 228, blue: 225, alpha: 255 })
    } else if name == seq![0x6du8, 0x6f, 0x63, 0x63, 0x61, 0x73, 0x69, 0x6e] {
        Some(Color { red: 255, green: 228, blue: 181, alpha: 255 })
    } else {
        None
    }
}

pub open spec fn named_color_n(name: Seq<u8>) -> Option<Color> {
    if name == seq![0x6eu8, 0x61, 0x76, 0x61, 0x6a, 0x6f, 0x77, 0x68, 0x69, 0x74, 0x65] {
        Some(Color { red: 255, green: 222, blue: 173, alpha: 255 })
    } else if name == seq![0x6eu8, 0x61, 0x76, 0x79] {
        Some(Color { red: 0, green: 0, blue: 128, alpha: 255 })
    } else {
        None
    }
}

pub open spec fn named_color_o(name: Seq<u8>) -> Option<Color> {
    if name == seq![0x6fu8, 0x6c, 0x64, 0x6c, 0x61, 0x63, 0x65] {
        Some(Color { red: 253, green: 245, blue: 230, alpha: 255 })
    } else if name == seq![0x6fu8, 0x6c, 0x69, 0x76, 0x65] {
        Some(Color { red: 128, green: 128, blue: 0, alpha: 255 })
    } else if name == seq![0x6fu8, 0x6c, 0x69, 0x76, 0x65, 0x64, 0x72, 0x61, 0x62] {
        Some(Color { red: 107, green: 142, blue: 35, alpha: 255 })
    } else if name == seq![0x6fu8, 0x72, 0x61, 0x6e, 0x67, 0x65] {
        Some(Color { red: 255, green: 165, blue: 0, alpha: 255 })
    } else if name == seq![0x6fu8, 0x72, 0x61, 0x6e, 0x67, 0x65, 0x72, 0x65, 0x64] {
        Some(Color { red: 255, green: 69, blue: 0, alpha: 255 })
    } else if name == seq![0x6fu8, 0x72, 0x63, 0x68, 0x69, 0x64] {
        Some(Color { red: 218, green: 112, blue: 214, alpha: 255 })
    } else {
        None
    }
}

pub open spec fn named_color_p(name: Seq<u8>) -> Option<Color> {
    if name == seq![0x70u8, 0x61, 0x6c, 0x65, 0x67, 0x6f, 0x6c, 0x64, 0x65, 0x6e, 0x72, 0x6f, 0x64] {
        Some(Color { red: 238, green: 232, blue: 170, alpha: 255 })
    } else if name == seq![0x70u8, 0x61, 0x6c, 0x65, 0x67, 0x72, 0x65, 0x65, 0x6e] {
        Some(Color { red: 152, green: 251, blue: 152, alpha: 255 })
    } else if name == seq![0x70u8, 0x61, 0x6c, 0x65, 0x74, 0x75, 0x72, 0x71, 0x75, 0x6f, 0x69, 0x73, 0x65] {
        Some(Color { red: 175, green: 238, blue: 238, alpha: 255 })
    } else if name == seq![0x70u8, 0x61, 0x6c, 0x65, 0x76, 0x69, 0x6f, 0x6c, 0x65, 0x74, 0x72, 0x65, 0x64] {
        Some(Color { red: 219, green: 112, blue: 147, alpha: 255 })
    } else if name == seq![0x70u8, 0x61, 0x70, 0x61, 0x79, 0x61, 0x77, 0x68, 0x69, 0x70] {
        Some(Color { red: 255, green: 239, blue: 213, alpha: 255 })
    } else if name == seq![0x70u8, 0x65, 0x61, 0x63, 0x68, 0x70, 0x75, 0x66, 0x66] {
        Some(Color { red: 255, green: 218, blue: 185, alpha: 255 })
    } else if name == seq![0x70u8, 0x65, 0x72, 0x75] {
        Some(Color { red: 205, green: 133, blue: 63, alpha: 255 })
    } else if name == seq![0x70u8, 0x69, 0x6e, 0x6b] {
        Some(Color { red: 255, green: 192, blue: 203, alpha: 255 })
    } else if name == seq![0x70u8, 0x6c, 0x75, 0x6d] {
        Some(Color { red: 221, green: 160, blue: 221, alpha: 255 })
    } else if name == seq![0x70u8, 0x6f, 0x77, 0x64, 0x65, 0x72, 0x62, 0x6c, 0x75, 0x65] {
        Some(Color { red: 176, green: 224, blue: 230, alpha: 255 })
    } else if name == seq![0x70u8, 0x75, 0x72, 0x70, 0x6c, 0x65] {
        Some(Color { red: 128, green: 0, blue: 128, alpha: 255 })
    } else {
        None
    }
}

pub open spec fn named_color_r(name: Seq<u8>) -> Option<Color> {
    if name == seq![0x72u8, 0x65, 0x62, 0x65, 0x63, 0x63, 0x61, 0x70, 0x75, 0x72, 0x70, 0x6c, 0x65] {
        Some(Color { red: 102, green: 51, blue: 153, alpha: 255 })
    } else if name == seq![0x72u8, 0x65, 0x64] {
        Some(Color { red: 255, green: 0, blue: 0, alpha: 255 })
    } else if name == seq![0x72u8, 0x6f, 0x73, 0x79, 0x62, 0x72, 0x6f, 0x77, 0x6e] {
        Some(Color { red: 188, green: 143, blue: 143, alpha: 255 })
    } else if name == seq![0x72u8, 0x6f, 0x79, 0x61, 0x6c, 0x62, 0x6c, 0x75, 0x65] {
        Some(Color { red: 65, green: 105, blue: 225, alpha: 255 })
    } else {
        None
    }
}

pub open spec fn named_color_s(name: Seq<u8>) -> Option<Color> {
    if name == seq![0x73u8, 0x61, 0x64, 0x64, 0x6c, 0x65, 0x62, 0x72, 0x6f, 0x77, 0x6e] {
        Some(Color { red: 139, green: 69, blue: 19, alpha: 255 })
    } else if name == seq![0x73u8, 0x61, 0x6c, 0x6d, 0x6f, 0x6e] {
        Some(Color { red: 250, green: 128, blue: 114, alpha: 255 })
    } else if name == seq![0x73u8, 0x61, 0x6e, 0x64, 0x79, 0x62, 0x72, 0x6f, 0x77, 0x6e] {
        Some(Color { red: 244, green: 164, blue: 96, alpha: 255 })
    } else if name == seq![0x73u8, 0x65, 0x61, 0x67, 0x72, 0x65, 0x65, 0x6e] {
        Some(Color { red: 46, green: 139, blue: 87, alpha: 255 })
    } else if name == seq![0x73u8, 0x65, 0x61, 0x73, 0x68, 0x65, 0x6c, 0x6c] {
        Some(Color { red: 255, green: 245, blue: 238, alpha: 255 })
    } else if name == seq![0x73u8, 0x69, 0x65, 0x6e, 0x6e, 0x61] {
        Some(Color { red: 160, green: 82, blue: 45, alpha: 255 })
    } else if name == seq![0x73u8, 0x69, 0x6c, 0x76, 0x65, 0x72] {
        Some(Color { red: 192, green: 192, blue: 192, alpha: 255 })
    } else if name == seq![0x73u8, 0x6b, 0x79, 0x62, 0x6c, 0x75, 0x65] {
        Some(Color { red: 135, green: 206, blue: 235, alpha: 255 })
    } else if name == seq![0x73u8, 0x6c, 0x61, 0x74, 0x65, 0x62, 0x6c, 0x75, 0x65] {
        Some(Color { red: 106, green: 90, blue: 205, alpha: 255 })
    } else if name == seq![0x73u8, 0x6c, 0x61, 0x74, 0x65, 0x67, 0x72, 0x61, 0x79] {
        Some(Color { red: 112, green: 128, blue: 144, alpha: 255 })
    } else if name == seq![0x73u8, 0x6c, 0x61, 0x74, 0x65, 0x67, 0x72, 0x65, 0x79] {
        Some(Color { red: 112, green: 128, blue: 144, alpha: 255 })
    } else if name == seq![0x73u8, 0x6e, 0x6f, 0x77] {
        Some(Color { red: 255, green: 250, blue: 250, alpha: 255 })
    } else if name == seq![0x73u8, 0x70, 0x72, 0x69, 0x6e, 0x67, 0x67, 0x72, 0x65, 0x65, 0x6e] {
        Some(Color { red: 0, green: 255, blue: 127, alpha: 255 })
    } else if name == seq![0x73u8, 0x74, 0x65, 0x65, 0x6c, 0x62, 0x6c, 0x75, 0x65] {
        Some(Color { red: 70, green: 130, blue: 180, alpha: 255 })
    } else {
        None
    }
}

pub open spec fn named_color_t(name: Seq<u8>) -> Option<Color> {
    if name == seq![0x74u8, 0x61, 0x6e] {
        Some(Color { red: 210, green: 180, blue: 140, alpha: 255 })
    } else if name == seq![0x74u8, 0x65, 0x61, 0x6c] {
        Some(Color { red: 0, green: 128, blue: 128, alpha: 255 })
    } else if name == seq![0x74u8, 0x68, 0x69, 0x73, 0x74, 0x6c, 0x65] {
        Some(Color { red: 216, green: 191, blue: 216, alpha: 255 })
    } else if name == seq![0x74u8, 0x6f, 0x6d, 0x61, 0x74, 0x6f] {
        Some(Color { red: 255, green: 99, blue: 71, alpha: 255 })
    } else if name == seq![0x74u8, 0x72, 0x61, 0x6e, 0x73, 0x70, 0x61, 0x72, 0x65, 0x6e, 0x74] {
        Some(Color { red: 0, green: 0, blue: 0, alpha: 0 })
    } else if name == seq![0x74u8, 0x75, 0x72, 0x71, 0x75, 0x6f, 0x69, 0x73, 0x65] {
        Some(Color { red: 64, green: 224, blue: 208, alpha: 255 })
    } else {
        None
    }
}

pub open spec fn named_color_v(name: Seq<u8>) -> Option<Color> {
    if name == seq![0x76u8, 0x69, 0x6f, 0x6c, 0x65, 0x74] {
        Some(Color { red: 238, green: 130, blue: 238, alpha: 255 })
    } else {
        None
    }
}

pub open spec fn named_color_w(name: Seq<u8>) -> Option<Color> {
    if name == seq![0x77u8, 0x68, 0x65, 0x61, 0x74] {
        Some(Color { red: 245, green: 222, blue: 179, alpha: 255 })
    } else if name == seq![0x77u8, 0x68, 0x69, 0x74, 0x65] {
        Some(Color { red: 255, green: 255, blue: 255, alpha: 255 })
    } else if name == seq![0x77u8, 0x68, 0x69, 0x74, 0x65, 0x73, 0x6d, 0x6f, 0x6b, 0x65] {
        Some(Color { red: 245, green: 245, blue: 245, alpha: 255 })
    } else {
        None
    }
}

pub open spec fn named_color_y(name: Seq<u8>) -> Option<Color> {
    if name == seq![0x79u8, 0x65, 0x6c, 0x6c, 0x6f, 0x77] {
        Some(Color { red: 255, green: 255, blue: 0, alpha: 255 })
    } else if name == seq![0x79u8, 0x65, 0x6c, 0x6c, 0x6f, 0x77, 0x67, 0x72, 0x65, 0x65, 0x6e] {
        Some(Color { red: 154, green: 205, blue: 50, alpha: 255 })
    } else {
        None
    }
}

/// The color that a lowercase CSS color keyword names, if any.
pub fn from_name(name: &[u8]) -> (r: Option<Color>)
    ensures
        r == named_color(name@),
{
    proof {
        reveal(named_color);
    }
    if name.len() == 0 {
        return None;
    }
    let c = name[0];
    if c == 0x61 {
        from_name_a(name)
    } else if c == 0x62 {
        from_name_b(name)
    } else if c == 0x63 {
        from_name_c(name)
    } else if c == 0x64 {
        from_name_d(name)
    } else if c == 0x66 {
        from_name_f(name)
    } else if c == 0x67 {
        from_name_g(name)
    } else if c == 0x68 {
        from_name_h(name)
    } else if c == 0x69 {
        from_name_i(name)
    } else if c == 0x6b {
        from_name_k(name)
    } else if c == 0x6c {
        from_name_l(name)
    } else if c == 0x6d {
        from_name_m(name)
    } else if c == 0x6e {
        from_name_n(name)
    } else if c == 0x6f {
        from_name_o(name)
    } else if c == 0x70 {
        from_name_p(name)
    } else if c == 0x72 {
        from_name_r(name)
    } else if c == 0x73 {
        from_name_s(name)
    } else if c == 0x74 {
        from_name_t(name)
    } else if c == 0x76 {
        from_name_v(name)
    } else if c == 0x77 {
        from_name_w(name)
    } else if c == 0x79 {
        from_name_y(name)
    } else {
        None
    }
}

fn from_name_a(name: &[u8]) -> (r: Option<Color>)
    ensures
        r == named_color_a(name@),
{
    let k: [u8; 9] = [0x61, 0x6c, 0x69, 0x63, 0x65, 0x62, 0x6c, 0x75, 0x65];
    proof {
        assert(k@ =~= seq![0x61u8, 0x6c, 0x69, 0x63, 0x65, 0x62, 0x6c, 0x75, 0x65]);
    }
    if bytes_eq(name, &k) {
        return Some(Color { red: 240, green: 248, blue: 255, alpha: 255 });
    }
    let k: [u8; 12] = [0x61, 0x6e, 0x74, 0x69, 0x71, 0x75, 0x65, 0x77, 0x68, 0x69, 0x74, 0x65];
    proof {
        assert(k@ =~= seq![0x61u8, 0x6e, 0x74, 0x69, 0x71, 0x75, 0x65, 0x77, 0x68, 0x69, 0x74, 0x65]);
    }
    if bytes_eq(name, &k) {
        return Some(Color { red: 250, green: 235, blue: 215, alpha: 255 });
    }
    let k: [u8; 4] = [0x61, 0x71, 0x75, 0x61];
    proof {
        assert(k@ =~= seq![0x61u8, 0x71, 0x75, 0x61]);
    }
    if bytes_eq(name, &k) {
        return Some(Color { red: 0, green: 255, blue: 255, alpha: 255 });
    }
    let k: [u8; 10] = [0x61, 0x71, 0x75, 0x61, 0x6d, 0x61, 0x72, 0x69, 0x6e, 0x65];
    proof {
        assert(k@ =~= seq![0x61u8, 0x71, 0x75, 0x61, 0x6d, 0x61, 0x72, 0x69, 0x6e, 0x65]);
    }
    if bytes_eq(name, &k) {
        return Some(Color { red: 127, green: 255, blue: 212, alpha: 255 });
    }
    let k: [u8; 5] = [0x61, 0x7a, 0x75, 0x72, 0x65];
    proof {
        assert(k@ =~= seq![0x61u8, 0x7a, 0x75, 0x72, 0x65]);
    }
    if bytes_eq(name, &k) {
        return Some(Color { red: 240, green: 255, blue: 255, alpha: 255 });
    }
    None
}

fn from_name_b(name: &[u8]) -> (r: Option<Color>)
    ensures
        r == named_color_b(name@),
{
    let k: [u8; 5] = [0x62, 0x65, 0x69, 0x67, 0x65];
    proof {
        assert(k@ =~= seq![0x62u8, 0x65, 0x69, 0x67, 0x65]);
    }
    if bytes_eq(name, &k) {
        return Some(Color { red: 245, green: 245, blue: 220, alpha: 255 });
    }
    let k: [u8; 6] = [0x62, 0x69, 0x73, 0x71, 0x75, 0x65];
    proof {
        assert(k@ =~= seq![0x62u8, 0x69, 0x73, 0x71, 0x75, 0x65]);
    }
    if bytes_eq(name, &k) {
        return Some(Color { red: 255, green: 228, blue: 196, alpha: 255 });
    }
    let k: [u8; 5] = [0x62, 0x6c, 0x61, 0x63, 0x6b];
    proof {
        assert(k@ =~= seq![0x62u8, 0x6c, 0x61, 0x63, 0x6b]);
    }
    if bytes_eq(name, &k) {
        return Some(Color { red: 0, green: 0, blue: 0, alpha: 255 });
    }
    let k: [u8; 14] = [0x62, 0x6c, 0x61, 0x6e, 0x63, 0x68, 0x65, 0x64, 0x61, 0x6c, 0x6d, 0x6f, 0x6e, 0x64];
    proof {
        assert(k@ =~= seq![0x62u8, 0x6c, 0x61, 0x6e, 0x63, 0x68, 0x65, 0x64, 0x61, 0x6c, 0x6d, 0x6f, 0x6e, 0x64]);
    }
    if bytes_eq(name, &k) {
        return Some(Color { red: 255, green: 235, blue: 205, alpha: 255 });
    }
    let k: [u8; 4] = [0x62, 0x6c, 0x75, 0x65];
    proof {
        assert(k@ =~= seq![0x62u8, 0x6c, 0x75, 0x65]);
    }
    if bytes_eq(name, &k) {
        return Some(Color { red: 0, green: 0, blue: 255, alpha: 255 });
    }
    let k: [u8; 10] = [0x62, 0x6c, 0x75, 0x65, 0x76, 0x69, 0x6f, 0x6c, 0x65, 0x74];
    proof {
        assert(k@ =~= seq![0x62u8, 0x6c, 0x75, 0x65, 0x76, 0x69, 0x6f, 0x6c, 0x65, 0x74]);
    }
    if bytes_eq(name, &k) {
        return Some(Color { red: 138, green: 43, blue: 226, alpha: 255 });
    }
    let k: [u8; 5] = [0x62, 0x72, 0x6f, 0x77, 0x6e];
    proof {
        assert(k@ =~= seq![0x62u8, 0x72, 0x6f, 0x77, 0x6e]);
    }
    if bytes_eq(name, &k) {
        return Some(Color { red: 165, green: 42, blue: 42, alpha: 255 });
    }
    let k: [u8; 9] = [0x62, 0x75, 0x72, 0x6c, 0x79, 0x77, 0x6f, 0x6f, 0x64];
    proof {
        assert(k@ =~= seq![0x62u8, 0x75, 0x72, 0x6c, 0x79, 0x77, 0x6f, 0x6f, 0x64]);
    }
    if bytes_eq(name, &k) {
        return Some(Color { red: 222, green: 184, blue: 135, alpha: 255 });
    }
    None
}

fn from_name_c(name: &[u8]) -> (r: Option<Color>)
    ensures
        r == named_color_c(name@),
{
    let k: [u8; 9] = [0x63, 0x61, 0x64, 0x65, 0x74, 0x62, 0x6c, 0x75, 0x65];
    proof {
        assert(k@ =~= seq![0x63u8, 0x61, 0x64, 0x65, 0x74, 0x62, 0x6c, 0x75, 0x65]);
    }
    if bytes_eq(name, &k) {
        return Some(Color { red: 95, green: 158, blue: 160, alpha: 255 });
    }
    let k: [u8; 10] = [0x63, 0x68, 0x61, 0x72, 0x74, 0x72, 0x65, 0x75, 0x73, 0x65];
    proof {
        assert(k@ =~= seq![0x63u8, 0x68, 0x61, 0x72, 0x74, 0x72, 0x65, 0x75, 0x73, 0x65]);
    }
    if bytes_eq(name, &k) {
        return Some(Color { red: 127, green: 255, blue: 0, alpha: 255 });
    }
    let k: [u8; 9] = [0x63, 0x68, 0x6f, 0x63, 0x6f, 0x6c, 0x61, 0x74, 0x65];
    proof {
        assert(k@ =~= seq![0x63u8, 0x68, 0x6f, 0x63, 0x6f, 0x6c, 0x61, 0x74, 0x65]);
    }
    if bytes_eq(name, &k) {
        return Some(Color { red: 210, green: 105, blue: 30, alpha: 255 });
    }
    let k: [u8; 5] = [0x63, 0x6f, 0x72, 0x61, 0x6c];
    proof {
        assert(k@ =~= seq![0x63u8, 0x6f, 0x72, 0x61, 0x6c]);
    }
    if bytes_eq(name, &k) {
        return Some(Color { red: 255, green: 127, blue: 80, alpha: 255 });
    }
    let k: [u8; 14] = [0x63, 0x6f, 0x72, 0x6e, 0x66, 0x6c, 0x6f, 0x77, 0x65, 0x72, 0x62, 0x6c, 0x75, 0x65];
    proof {
        assert(k@ =~= seq![0x63u8, 0x6f, 0x72, 0x6e, 0x66, 0x6c, 0x6f, 0x77, 0x65, 0x72, 0x62, 0x6c, 0x75, 0x65]);
    }
    if bytes_eq(name, &k) {
        return Some(Color { red: 100, green: 149, blue: 237, alpha: 255 });
    }
    let k: [u8; 8] = [0x63, 0x6f, 0x72, 0x6e, 0x73, 0x69, 0x6c, 0x6b];
    proof {
        assert(k@ =~= seq![0x63u8, 0x6f, 0x72, 0x6e, 0x73, 0x69, 0x6c, 0x6b]);
    }
    if bytes_eq(name, &k) {
        return Some(Color { red: 255, green: 248, blue: 220, alpha: 255 });
    }
    let k: [u8; 7] = [0x63, 0x72, 0x69, 0x6d, 0x73, 0x6f, 0x6e];
    proof {
        assert(k@ =~= seq![0x63u8, 0x72, 0x69, 0x6d, 0x73, 0x6f, 0x6e]);
    }
    if bytes_eq(name, &k) {
        return Some(Color { red: 220, green: 20, blue: 60, alpha: 255 });
    }
    let k: [u8; 4] = [0x63, 0x79, 0x61, 0x6e];
    proof {
        assert(k@ =~= seq![0x63u8, 0x79, 0x61, 0x6e]);
    }
    if bytes_eq(name, &k) {
        return Some(Color { red: 0, green: 255, blue: 255, alpha: 255 });
    }
    None
}

fn from_name_d(name: &[u8]) -> (r: Option<Color>)
    ensures
        r == named_color_d(name@),
{
    let k: [u8; 8] = [0x64, 0x61, 0x72, 0x6b, 0x62, 0x6c, 0x75, 0x65];
    proof {
        assert(k@ =~= seq![0x64u8, 0x61, 0x72, 0x6b, 0x62, 0x6c, 0x75, 0x65]);
    }
    if bytes_eq(name, &k) {
        return Some(Color { red: 0, green: 0, blue: 139, alpha: 255 });
    }
    let k: [u8; 8] = [0x64, 0x61, 0x72, 0x6b, 0x63, 0x79, 0x61, 0x6e];
    proof {
        assert(k@ =~= seq![0x64u8, 0x61, 0x72, 0x6b, 0x63, 0x79, 0x61, 0x6e]);
    }
    if bytes_eq(name, &k) {
        return Some(Color { red: 0, green: 139, blue: 139, alpha: 255 });
    }
    let k: [u8; 13] = [0x64, 0x61, 0x72, 0x6b, 0x67, 0x6f, 0x6c, 0x64, 0x65, 0x6e, 0x72, 0x6f, 0x64];
    proof {
        assert(k@ =~= seq![0x64u8, 0x61, 0x72, 0x6b, 0x67, 0x6f, 0x6c, 0x64, 0x65, 0x6e, 0x72, 0x6f, 0x64]);
    }
    if bytes_eq(name, &k) {
        return Some(Color { red: 184, green: 134, blue: 11, alpha: 255 });
    }
    let k: [u8; 8] = [0x64, 0x61, 0x72, 0x6b, 0x67, 0x72, 0x61, 0x79];
    proof {
        assert(k@ =~= seq![0x64u8, 0x61, 0x72, 0x6b, 0x67, 0x72, 0x61, 0x79]);
    }
    if bytes_eq(name, &k) {
        return Some(Color { red: 169, green: 169, blue: 169, alpha: 255 });
    }
    let k: [u8; 9] = [0x64, 0x61, 0x72, 0x6b, 0x67, 0x72, 0x65, 0x65, 0x6e];
    proof {
        assert(k@ =~= seq![0x64u8, 0x61, 0x72, 0x6b, 0x67, 0x72, 0x65, 0x65, 0x6e]);
    }
    if bytes_eq(name, &k) {
        return Some(Color { red: 0, green: 100, blue: 0, alpha: 255 });
    }
    let k: [u8; 8] = [0x64, 0x61, 0x72, 0x6b, 0x67, 0x72, 0x65, 0x79];
    proof {
        assert(k@ =~= seq![0x64u8, 0x61, 0x72, 0x6b, 0x67, 0x72, 0x65, 0x79]);
    }
    if bytes_eq(name, &k) {
        return Some(Color { red: 169, green: 169, blue: 169, alpha: 255 });
    }
    let k: [u8; 9] = [0x64, 0x61, 0x72, 0x6b, 0x6b, 0x68, 0x61, 0x6b, 0x69];
    proof {
        assert(k@ =~= seq![0x64u8, 0x61, 0x72, 0x6b, 0x6b, 0x68, 0x61, 0x6b, 0x69]);
    }
    if bytes_eq(name, &k) {
        return Some(Color { red: 189, green: 183, blue: 107, alpha: 255 });
    }
    let k: [u8; 11] = [0x64, 0x61, 0x72, 0x6b, 0x6d, 0x61, 0x67, 0x65, 0x6e, 0x74, 0x61];
    proof {
        assert(k@ =~= seq![0x64u8, 0x61, 0x72, 0x6b, 0x6d, 0x61, 0x67, 0x65, 0x6e, 0x74, 0x61]);
    }
    if bytes_eq(name, &k) {
        return Some(Color { red: 139, green: 0, blue: 139, alpha: 255 });
    }
    let k: [u8; 14] = [0x64, 0x61, 0x72, 0x6b, 0x6f, 0x6c, 0x69, 0x76, 0x65, 0x67, 0x72, 0x65, 0x65, 0x6e];
    proof {
        assert(k@ =~= seq![0x64u8, 0x61, 0x72, 0x6b, 0x6f, 0x6c, 0x69, 0x76, 0x65, 0x67, 0x72, 0x65, 0x65, 0x6e]);
    }
    if bytes_eq(name, &k) {
        return Some(Color { red: 85, green: 107, blue: 47, alpha: 255 });
    }
    let k: [u8; 10] = [0x64, 0x61, 0x72, 0x6b, 0x6f, 0x72, 0x61, 0x6e, 0x67, 0x65];
    proof {
        assert(k@ =~= seq![0x64u8, 0x61, 0x72, 0x6b, 0x6f, 0x72, 0x61, 0x6e, 0x67, 0x65]);
    }
    if bytes_eq(name, &k) {
        return Some(Color { red: 255, green: 140, blue: 0, alpha: 255 });
    }
    let k: [u8; 10] = [0x64, 0x61, 0x72, 0x6b, 0x6f, 0x72, 0x63, 0x68, 0x69, 0x64];
    proof {
        assert(k@ =~= seq![0x64u8, 0x61, 0x72, 0x6b, 0x6f, 0x72, 0x63, 0x68, 0x69, 0x64]);
    }
    if bytes_eq(name, &k) {
        return Some(Color { red: 153, green: 50, blue: 204, alpha: 255 });
    }
    let k: [u8; 7] = [0x64, 0x61, 0x72, 0x6b, 0x72, 0x65, 0x64];
    proof {
        assert(k@ =~= seq![0x64u8, 0x61, 0x72, 0x6b, 0x72, 0x65, 0x64]);
    }
    if bytes_eq(name, &k) {
        return Some(Color { red: 139, green: 0, blue: 0, alpha: 255 });
    }
    let k: [u8; 10] = [0x64, 0x61, 0x72, 0x6b, 0x73, 0x61, 0x6c, 0x6d, 0x6f, 0x6e];
    proof {
        assert(k@ =~= seq![0x64u8, 0x61, 0x72, 0x6b, 0x73, 0x61, 0x6c, 0x6d, 0x6f, 0x6e]);
    }
    if bytes_eq(name, &k) {
        return Some(Color { red: 233, green: 150, blue: 122, alpha: 255 });
    }
    let k: [u8; 12] = [0x64, 0x61, 0x72, 0x6b, 0x73, 0x65, 0x61, 0x67, 0x72, 0x65, 0x65, 0x6e];
    proof {
        assert(k@ =~= seq![0x64u8, 0x61, 0x72, 0x6b, 0x73, 0x65, 0x61, 0x67, 0x72, 0x65, 0x65, 0x6e]);
    }
    if bytes_eq(name, &k) {
        return Some(Color { red: 143, green: 188, blue: 143, alpha: 255 });
    }
    let k: [u8; 13] = [0x64, 0x61, 0x72, 0x6b, 0x73, 0x6c, 0x61, 0x74, 0x65, 0x62, 0x6c, 0x75, 0x65];
    proof {
        assert(k@ =~= seq![0x64u8, 0x61, 0x72, 0x6b, 0x73, 0x6c, 0x61, 0x74, 0x65, 0x62, 0x6c, 0x75, 0x65]);
    }
    if bytes_eq(name, &k) {
        return Some(Color { red: 72, green: 61, blue: 139, alpha: 255 });
    }
    let k: [u8; 13] = [0x64, 0x61, 0x72, 0x6b, 0x73, 0x6c, 0x61, 0x74, 0x65, 0x67, 0x72, 0x61, 0x79];
    proof {
        assert(k@ =~= seq![0x64u8, 0x61, 0x72, 0x6b, 0x73, 0x6c, 0x61, 0x74, 0x65, 0x67, 0x72, 0x61, 0x79]);
    }
    if bytes_eq(name, &k) {
        return Some(Color { red: 47, green: 79, blue: 79, alpha: 255 });
    }
    let k: [u8; 13] = [0x64, 0x61, 0x72, 0x6b, 0x73, 0x6c, 0x61, 0x74, 0x65, 0x67, 0x72, 0x65, 0x79];
    proof {
        assert(k@ =~= seq![0x64u8, 0x61, 0x72, 0x6b, 0x73, 0x6c, 0x61, 0x74, 0x65, 0x67, 0x72, 0x65, 0x79]);
    }
    if bytes_eq(name, &k) {
        return Some(Color { red: 47, green: 79, blue: 79, alpha: 255 });
    }
    let k: [u8; 13] = [0x64, 0x61, 0x72, 0x6b, 0x74, 0x75, 0x72, 0x71, 0x75, 0x6f, 0x69, 0x73, 0x65];
    proof {
        assert(k@ =~= seq![0x64u8, 0x61, 0x72, 0x6b, 0x74, 0x75, 0x72, 0x71, 0x75, 0x6f, 0x69, 0x73, 0x65]);
    }
    if bytes_eq(name, &k) {
        return Some(Color { red: 0, green: 206, blue: 209, alpha: 255 });
    }
    let k: [u8; 10] = [0x64, 0x61, 0x72, 0x6b, 0x76, 0x69, 0x6f, 0x6c, 0x65, 0x74];
    proof {
        assert(k@ =~= seq![0x64u8, 0x61, 0x72, 0x6b, 0x76, 0x69, 0x6f, 0x6c, 0x65, 0x74]);
    }
    if bytes_eq(name, &k) {
        return Some(Color { red: 148, green: 0, blue: 211, alpha: 255 });
    }
    let k: [u8; 8] = [0x64, 0x65, 0x65, 0x70, 0x70, 0x69, 0x6e, 0x6b];
    proof {
        assert(k@ =~= seq![0x64u8, 0x65, 0x65, 0x70, 0x70, 0x69, 0x6e, 0x6b]);
    }
    if bytes_eq(name, &k) {
        return Some(Color { red: 255, green: 20, blue: 147, alpha: 255 });
    }
    let k: [u8; 11] = [0x64, 0x65, 0x65, 0x70, 0x73, 0x6b, 0x79, 0x62, 0x6c, 0x75, 0x65];
    proof {
        assert(k@ =~= seq![0x64u8, 0x65, 0x65, 0x70, 0x73, 0x6b, 0x79, 0x62, 0x6c, 0x75, 0x65]);
    }
    if bytes_eq(name, &k) {
        return Some(Color { red: 0, green: 191, blue: 255, alpha: 255 });
    }
    let k: [u8; 7] = [0x64, 0x69, 0x6d, 0x67, 0x72, 0x61, 0x79];
    proof {
        assert(k@ =~= seq![0x64u8, 0x69, 0x6d, 0x67, 0x72, 0x61, 0x79]);
    }
    if bytes_eq(name, &k) {
        return Some(Color { red: 105, green: 105, blue: 105, alpha: 255 });
    }
    let k: [u8; 7] = [0x64, 0x69, 0x6d, 0x67, 0x72, 0x65, 0x79];
    proof {
        assert(k@ =~= seq![0x64u8, 0x69, 0x6d, 0x67, 0x72, 0x65, 0x79]);
    }
    if bytes_eq(name, &k) {
        return Some(Color { red: 105, green: 105, blue: 105, alpha: 255 });
    }
    let k: [u8; 10] = [0x64, 0x6f, 0x64, 0x67, 0x65, 0x72, 0x62, 0x6c, 0x75, 0x65];
    proof {
        assert(k@ =~= seq![0x64u8, 0x6f, 0x64, 0x67, 0x65, 0x72, 0x62, 0x6c, 0x75, 0x65]);
    }
    if bytes_eq(name, &k) {
        return Some(Color { red: 30, green: 144, blue: 255, alpha: 255 });
    }
    None
}

fn from_name_f(name: &[u8]) -> (r: Option<Color>)
    ensures
        r == named_color_f(name@),
{
    let k: [u8; 9] = [0x66, 0x69, 0x72, 0x65, 0x62, 0x72, 0x69, 0x63, 0x6b];
    proof {
        assert(k@ =~= seq![0x66u8, 0x69, 0x72, 0x65, 0x62, 0x72, 0x69, 0x63, 0x6b]);
    }
    if bytes_eq(name, &k) {
        return Some(Color { red: 178, green: 34, blue: 34, alpha: 255 });
    }
    let k: [u8; 11] = [0x66, 0x6c, 0x6f, 0x72, 0x61, 0x6c, 0x77, 0x68, 0x69, 0x74, 0x65];
    proof {
        assert(k@ =~= seq![0x66u8, 0x6c, 0x6f, 0x72, 0x61, 0x6c, 0x77, 0x68, 0x69, 0x74, 0x65]);
    }
    if bytes_eq(name, &k) {
        return Some(Color { red: 255, green: 250, blue: 240, alpha: 255 });
    }
    let k: [u8; 11] = [0x66, 0x6f, 0x72, 0x65, 0x73, 0x74, 0x67, 0x72, 0x65, 0x65, 0x6e];
    proof {
        assert(k@ =~= seq![0x66u8, 0x6f, 0x72, 0x65, 0x73, 0x74, 0x67, 0x72, 0x65, 0x65, 0x6e]);
    }
    if bytes_eq(name, &k) {
        return Some(Color { red: 34, green: 139, blue: 34, alpha: 255 });
    }
    let k: [u8; 7] = [0x66, 0x75, 0x63, 0x68, 0x73, 0x69, 0x61];
    proof {
        assert(k@ =~= seq![0x66u8, 0x75, 0x63, 0x68, 0x73, 0x69, 0x61]);
    }
    if bytes_eq(name, &k) {
        return Some(Color { red: 255, green: 0, blue: 255, alpha: 255 });
    }
    None
}

fn from_name_g(name: &[u8]) -> (r: Option<Color>)
    ensures
        r == named_color_g(name@),
{
    let k: [u8; 9] = [0x67, 0x61, 0x69, 0x6e, 0x73, 0x62, 0x6f, 0x72, 0x6f];
    proof {
        assert(k@ =~= seq![0x67u8, 0x61, 0x69, 0x6e, 0x73, 0x62, 0x6f, 0x72, 0x6f]);
    }
    if bytes_eq(name, &k) {
        return Some(Color { red: 220, green: 220, blue: 220, alpha: 255 });
    }
    let k: [u8; 10] = [0x67, 0x68, 0x6f, 0x73, 0x74, 0x77, 0x68, 0x69, 0x74, 0x65];
    proof {
        assert(k@ =~= seq![0x67u8, 0x68, 0x6f, 0x73, 0x74, 0x77, 0x68, 0x69, 0x74, 0x65]);
    }
    if bytes_eq(name, &k) {
        return Some(Color { red: 248, green: 248, blue: 255, alpha: 255 });
    }
    let k: [u8; 4] = [0x67, 0x6f, 0x6c, 0x64];
    proof {
        assert(k@ =~= seq![0x67u8, 0x6f, 0x6c, 0x64]);
    }
    if bytes_eq(name, &k) {
        return Some(Color { red: 255, green: 215, blue: 0, alpha: 255 });
    }
    let k: [u8; 9] = [0x67, 0x6f, 0x6c, 0x64, 0x65, 0x6e, 0x72, 0x6f, 0x64];
    proof {
        assert(k@ =~= seq![0x67u8, 0x6f, 0x6c, 0x64, 0x65, 0x6e, 0x72, 0x6f, 0x64]);
    }
    if bytes_eq(name, &k) {
        return Some(Color { red: 218, green: 165, blue: 32, alpha: 255 });
    }
    let k: [u8; 4] = [0x67, 0x72, 0x61, 0x79];
    proof {
        assert(k@ =~= seq![0x67u8, 0x72, 0x61, 0x79]);
    }
    if bytes_eq(name, &k) {
        return Some(Color { red: 128, green: 128, blue: 128, alpha: 255 });
    }
    let k: [u8; 5] = [0x67, 0x72, 0x65, 0x65, 0x6e];
    proof {
        assert(k@ =~= seq![0x67u8, 0x72, 0x65, 0x65, 0x6e]);
    }
    if bytes_eq(name, &k) {
        return Some(Color { red: 0, green: 128, blue: 0, alpha: 255 });
    }
    let k: [u8; 11] = [0x67, 0x72, 0x65, 0x65, 0x6e, 0x79, 0x65, 0x6c, 0x6c, 0x6f, 0x77];
    proof {
        assert(k@ =~= seq![0x67u8, 0x72, 0x65, 0x65, 0x6e, 0x79, 0x65, 0x6c, 0x6c, 0x6f, 0x77]);
    }
    if bytes_eq(name, &k) {
        return Some(Color { red: 173, green: 255, blue: 47, alpha: 255 });
    }
    let k: [u8; 4] = [0x67, 0x72, 0x65, 0x79];
    proof {
        assert(k@ =~= seq![0x67u8, 0x72, 0x65, 0x79]);
    }
    if bytes_eq(name, &k) {
        return Some(Color { red: 128, green: 128, blue: 128, alpha: 255 });
    }
    None
}

fn from_name_h(name: &[u8]) -> (r: Option<Color>)
    ensures
        r == named_color_h(name@),
{
    let k: [u8; 8] = [0x68, 0x6f, 0x6e, 0x65, 0x79, 0x64, 0x65, 0x77];
    proof {
        assert(k@ =~= seq![0x68u8, 0x6f, 0x6e, 0x65, 0x79, 0x64, 0x65, 0x77]);
    }
    if bytes_eq(name, &k) {
        return Some(Color { red: 240, green: 255, blue: 240, alpha: 255 });
    }
    let k: [u8; 7] = [0x68, 0x6f, 0x74, 0x70, 0x69, 0x6e, 0x6b];
    proof {
        assert(k@ =~= seq![0x68u8, 0x6f, 0x74, 0x70, 0x69, 0x6e, 0x6b]);
    }
    if bytes_eq(name, &k) {
        return Some(Color { red: 255, green: 105, blue: 180, alpha: 255 });
    }
    None
}

fn from_name_i(name: &[u8]) -> (r: Option<Color>)
    ensures
        r == named_color_i(name@),
{
    let k: [u8; 9] = [0x69, 0x6e, 0x64, 0x69, 0x61, 0x6e, 0x72, 0x65, 0x64];
    proof {
        assert(k@ =~= seq![0x69u8, 0x6e, 0x64, 0x69, 0x61, 0x6e, 0x72, 0x65, 0x64]);
    }
    if bytes_eq(name, &k) {
        return Some(Color { red: 205, green: 92, blue: 92, alpha: 255 });
    }
    let k: [u8; 6] = [0x69, 0x6e, 0x64, 0x69, 0x67, 0x6f];
    proof {
        assert(k@ =~= seq![0x69u8, 0x6e, 0x64, 0x69, 0x67, 0x6f]);
    }
    if bytes_eq(name, &k) {
        return Some(Color { red: 75, green: 0, blue: 130, alpha: 255 });
    }
    let k: [u8; 5] = [0x69, 0x76, 0x6f, 0x72, 0x79];
    proof {
        assert(k@ =~= seq![0x69u8, 0x76, 0x6f, 0x72, 0x79]);
    }
    if bytes_eq(name, &k) {
        return Some(Color { red: 255, green: 255, blue: 240, alpha: 255 });
    }
    None
}

fn from_name_k(name: &[u8]) -> (r: Option<Color>)
    ensures
        r == named_color_k(name@),
{
    let k: [u8; 5] = [0x6b, 0x68, 0x61, 0x6b, 0x69];
    proof {
        assert(k@ =~= seq![0x6bu8, 0x68, 0x61, 0x6b, 0x69]);
    }
    if bytes_eq(name, &k) {
        return Some(Color { red: 240, green: 230, blue: 140, alpha: 255 });
    }
    None
}

fn from_name_l(name: &[u8]) -> (r: Option<Color>)
    ensures
        r == named_color_l(name@),
{
    let k: [u8; 8] = [0x6c, 0x61, 0x76, 0x65, 0x6e, 0x64, 0x65, 0x72];
    proof {
        assert(k@ =~= seq![0x6cu8, 0x61, 0x76, 0x65, 0x6e, 0x64, 0x65, 0x72]);
    }
    if bytes_eq(name, &k) {
        return Some(Color { red: 230, green: 230, blue: 250, alpha: 255 });
    }
    let k: [u8; 13] = [0x6c, 0x61, 0x76, 0x65, 0x6e, 0x64, 0x65, 0x72, 0x62, 0x6c, 0x75, 0x73, 0x68];
    proof {
        assert(k@ =~= seq![0x6cu8, 0x61, 0x76, 0x65, 0x6e, 0x64, 0x65, 0x72, 0x62, 0x6c, 0x75, 0x73, 0x68]);
    }
    if bytes_eq(name, &k) {
        return Some(Color { red: 255, green: 240, blue: 245, alpha: 255 });
    }
    let k: [u8; 9] = [0x6c, 0x61, 0x77, 0x6e, 0x67, 0x72, 0x65, 0x65, 0x6e];
    proof {
        assert(k@ =~= seq![0x6cu8, 0x61, 0x77, 0x6e, 0x67, 0x72, 0x65, 0x65, 0x6e]);
    }
    if bytes_eq(name, &k) {
        return Some(Color { red: 124, green: 252, blue: 0, alpha: 255 });
    }
    let k: [u8; 12] = [0x6c, 0x65, 0x6d, 0x6f, 0x6e, 0x63, 0x68, 0x69, 0x66, 0x66, 0x6f, 0x6e];
    proof {
        assert(k@ =~= seq![0x6cu8, 0x65, 0x6d, 0x6f, 0x6e, 0x63, 0x68, 0x69, 0x66, 0x66, 0x6f, 0x6e]);
    }
    if bytes_eq(name, &k) {
        return Some(Color { red: 255, green: 250, blue: 205, alpha: 255 });
    }
    let k: [u8; 9] = [0x6c, 0x69, 0x67, 0x68, 0x74, 0x62, 0x6c, 0x75, 0x65];
    proof {
        assert(k@ =~= seq![0x6cu8, 0x69, 0x67, 0x68, 0x74, 0x62, 0x6c, 0x75, 0x65]);
    }
    if bytes_eq(name, &k) {
        return Some(Color { red: 173, green: 216, blue: 230, alpha: 255 });
    }
    let k: [u8; 10] = [0x6c, 0x69, 0x67, 0x68, 0x74, 0x63, 0x6f, 0x72, 0x61, 0x6c];
    proof {
        assert(k@ =~= seq![0x6cu8, 0x69, 0x67, 0x68, 0x74, 0x63, 0x6f, 0x72, 0x61, 0x6c]);
    }
    if bytes_eq(name, &k) {
        return Some(Color { red: 240, green: 128, blue: 128, alpha: 255 });
    }
    let k: [u8; 9] = [0x6c, 0x69, 0x67, 0x68, 0x74, 0x63, 0x79, 0x61, 0x6e];
    proof {
        assert(k@ =~= seq![0x6cu8, 0x69, 0x67, 0x68, 0x74, 0x63, 0x79, 0x61, 0x6e]);
    }
    if bytes_eq(name, &k) {
        return Some(Color { red: 224, green: 255, blue: 255, alpha: 255 });
    }
    let k: [u8; 20] = [0x6c, 0x69, 0x67, 0x68, 0x74, 0x67, 0x6f, 0x6c, 0x64, 0x65, 0x6e, 0x72, 0x6f, 0x64, 0x79, 0x65, 0x6c, 0x6c, 0x6f, 0x77];
    proof {
        assert(k@ =~= seq![0x6cu8, 0x69, 0x67, 0x68, 0x74, 0x67, 0x6f, 0x6c, 0x64, 0x65, 0x6e, 0x72, 0x6f, 0x64, 0x79, 0x65, 0x6c, 0x6c, 0x6f, 0x77]);
    }
    if bytes_eq(name, &k) {
        return Some(Color { red: 250, green: 250, blue: 210, alpha: 255 });
    }
    let k: [u8; 9] = [0x6c, 0x69, 0x67, 0x68, 0x74, 0x67, 0x72, 0x61, 0x79];
    proof {
        assert(k@ =~= seq![0x6cu8, 0x69, 0x67, 0x68, 0x74, 0x67, 0x72, 0x61, 0x79]);
    }
    if bytes_eq(name, &k) {
        return Some(Color { red: 211, green: 211, blue: 211, alpha: 255 });
    }
    let k: [u8; 10] = [0x6c, 0x69, 0x67, 0x68, 0x74, 0x67, 0x72, 0x65, 0x65, 0x6e];
    proof {
        assert(k@ =~= seq![0x6cu8, 0x69, 0x67, 0x68, 0x74, 0x67, 0x72, 0x65, 0x65, 0x6e]);
    }
    if bytes_eq(name, &k) {
        return Some(Color { red: 144, green: 238, blue: 144, alpha: 255 });
    }
    let k: [u8; 9] = [0x6c, 0x69, 0x67, 0x68, 0x74, 0x67, 0x72, 0x65, 0x79];
    proof {
        assert(k@ =~= seq![0x6cu8, 0x69, 0x67, 0x68, 0x74, 0x67, 0x72, 0x65, 0x79]);
    }
    if bytes_eq(name, &k) {
        return Some(Color { red: 211, green: 211, blue: 211, alpha: 255 });
    }
    let k: [u8; 9] = [0x6c, 0x69, 0x67, 0x68, 0x74, 0x70, 0x69, 0x6e, 0x6b];
    proof {
        assert(k@ =~= seq![0x6cu8, 0x69, 0x67, 0x68, 0x74, 0x70, 0x69, 0x6e, 0x6b]);
    }
    if bytes_eq(name, &k) {
        return Some(Color { red: 255, green: 182, blue: 193, alpha: 255 });
    }
    let k: [u8; 11] = [0x6c, 0x69, 0x67, 0x68, 0x74, 0x73, 0x61, 0x6c, 0x6d, 0x6f, 0x6e];
    proof {
        assert(k@ =~= seq![0x6cu8, 0x69, 0x67, 0x68, 0x74, 0x73, 0x61, 0x6c, 0x6d, 0x6f, 0x6e]);
    }
    if bytes_eq(name, &k) {
        return Some(Color { red: 255, green: 160, blue: 122, alpha: 255 });
    }
    let k: [u8; 13] = [0x6c, 0x69, 0x67, 0x68, 0x74, 0x73, 0x65, 0x61, 0x67, 0x72, 0x65, 0x65, 0x6e];
    proof {
        assert(k@ =~= seq![0x6cu8, 0x69, 0x67, 0x68, 0x74, 0x73, 0x65, 0x61, 0x67, 0x72, 0x65, 0x65, 0x6e]);
    }
    if bytes_eq(name, &k) {
        return Some(Color { red: 32, green: 178, blue: 170, alpha: 255 });
    }
    let k: [u8; 12] = [0x6c, 0x69, 0x67, 0x68, 0x74, 0x73, 0x6b, 0x79, 0x62, 0x6c, 0x75, 0x65];
    proof {
        assert(k@ =~= seq![0x6cu8, 0x69, 0x67, 0x68, 0x74, 0x73, 0x6b, 0x79, 0x62, 0x6c, 0x75, 0x65]);
    }
    if bytes_eq(name, &k) {
        return Some(Color { red: 135, green: 206, blue: 250, alpha: 255 });
    }
    let k: [u8; 14] = [0x6c, 0x69, 0x67, 0x68, 0x74, 0x73, 0x6c, 0x61, 0x74, 0x65, 0x67, 0x72, 0x61, 0x79];
    proof {
        assert(k@ =~= seq![0x6cu8, 0x69, 0x67, 0x68, 0x74, 0x73, 0x6c, 0x61, 0x74, 0x65, 0x67, 0x72, 0x61, 0x79]);
    }
    if bytes_eq(name, &k) {
        return Some(Color { red: 119, green: 136, blue: 153, alpha: 255 });
    }
    let k: [u8; 14] = [0x6c, 0x69, 0x67, 0x68, 0x74, 0x73, 0x6c, 0x61, 0x74, 0x65, 0x67, 0x72, 0x65, 0x79];
    proof {
        assert(k@ =~= seq![0x6cu8, 0x69, 0x67, 0x68, 0x74, 0x73, 0x6c, 0x61, 0x74, 0x65, 0x67, 0x72, 0x65, 0x79]);
    }
    if bytes_eq(name, &k) {
        return Some(Color { red: 119, green: 136, blue: 153, alpha: 255 });
    }
    let k: [u8; 14] = [0x6c, 0x69, 0x67, 0x68, 0x74, 0x73, 0x74, 0x65, 0x65, 0x6c, 0x62, 0x6c, 0x75, 0x65];
    proof {
        assert(k@ =~= seq![0x6cu8, 0x69, 0x67, 0x68, 0x74, 0x73, 0x74, 0x65, 0x65, 0x6c, 0x62, 0x6c, 0x75, 0x65]);
    }
    if bytes_eq(name, &k) {
        return Some(Color { red: 176, green: 196, blue: 222, alpha: 255 });
    }
    let k: [u8; 11] = [0x6c, 0x69, 0x67, 0x68, 0x74, 0x79, 0x65, 0x6c, 0x6c, 0x6f, 0x77];
    proof {
        assert(k@ =~= seq![0x6cu8, 0x69, 0x67, 0x68, 0x74, 0x79, 0x65, 0x6c, 0x6c, 0x6f, 0x77]);
    }
    if bytes_eq(name, &k) {
        return Some(Color { red: 255, green: 255, blue: 224, alpha: 255 });
    }
    let k: [u8; 4] = [0x6c, 0x69, 0x6d, 0x65];
    proof {
        assert(k@ =~= seq![0x6cu8, 0x69, 0x6d, 0x65]);
    }
    if bytes_eq(name, &k) {
        return Some(Color { red: 0, green: 255, blue: 0, alpha: 255 });
    }
    let k: [u8; 9] = [0x6c, 0x69, 0x6d, 0x65, 0x67, 0x72, 0x65, 0x65, 0x6e];
    proof {
        assert(k@ =~= seq![0x6cu8, 0x69, 0x6d, 0x65, 0x67, 0x72, 0x65, 0x65, 0x6e]);
    }
    if bytes_eq(name, &k) {
        return Some(Color { red: 50, green: 205, blue: 50, alpha: 255 });
    }
    let k: [u8; 5] = [0x6c, 0x69, 0x6e, 0x65, 0x6e];
    proof {
        assert(k@ =~= seq![0x6cu8, 0x69, 0x6e, 0x65, 0x6e]);
    }
    if bytes_eq(name, &k) {
        return Some(Color { red: 250, green: 240, blue: 230, alpha: 255 });
    }
    None
}

fn from_name_m(name: &[u8]) -> (r: Option<Color>)
    ensures
        r == named_color_m(name@),
{
    let k: [u8; 7] = [0x6d, 0x61, 0x67, 0x65, 0x6e, 0x74, 0x61];
    proof {
        assert(k@ =~= seq![0x6du8, 0x61, 0x67, 0x65, 0x6e, 0x74, 0x61]);
    }
    if bytes_eq(name, &k) {
        return Some(Color { red: 255, green: 0, blue: 255, alpha: 255 });
    }
    let k: [u8; 6] = [0x6d, 0x61, 0x72, 0x6f, 0x6f, 0x6e];
    proof {
        assert(k@ =~= seq![0x6du8, 0x61, 0x72, 0x6f, 0x6f, 0x6e]);
    }
    if bytes_eq(name, &k) {
        return Some(Color { red: 128, green: 0, blue: 0, alpha: 255 });
    }
    let k: [u8; 16] = [0x6d, 0x65, 0x64, 0x69, 0x75, 0x6d, 0x61, 0x71, 0x75, 0x61, 0x6d, 0x61, 0x72, 0x69, 0x6e, 0x65];
    proof {
        assert(k@ =~= seq![0x6du8, 0x65, 0x64, 0x69, 0x75, 0x6d, 0x61, 0x71, 0x75, 0x61, 0x6d, 0x61, 0x72, 0x69, 0x6e, 0x65]);
    }
    if bytes_eq(name, &k) {
        return Some(Color { red: 102, green: 205, blue: 170, alpha: 255 });
    }
    let k: [u8; 10] = [0x6d, 0x65, 0x64, 0x69, 0x75, 0x6d, 0x62, 0x6c, 0x75, 0x65];
    proof {
        assert(k@ =~= seq![0x6du8, 0x65, 0x64, 0x69, 0x75, 0x6d, 0x62, 0x6c, 0x75, 0x65]);
    }
    if bytes_eq(name, &k) {
        return Some(Color { red: 0, green: 0, blue: 205, alpha: 255 });
    }
    let k: [u8; 12] = [0x6d, 0x65, 0x64, 0x69, 0x75, 0x6d, 0x6f, 0x72, 0x63, 0x68, 0x69, 0x64];
    proof {
        assert(k@ =~= seq![0x6du8, 0x65, 0x64, 0x69, 0x75, 0x6d, 0x6f, 0x72, 0x63, 0x68, 0x69, 0x64]);
    }
    if bytes_eq(name, &k) {
        return Some(Color { red: 186, green: 85, blue: 211, alpha: 255 });
    }
    let k: [u8; 12] = [0x6d, 0x65, 0x64, 0x69, 0x75, 0x6d, 0x70, 0x75, 0x72, 0x70, 0x6c, 0x65];
    proof {
        assert(k@ =~= seq![0x6du8, 0x65, 0x64, 0x69, 0x75, 0x6d, 0x70, 0x75, 0x72, 0x70, 0x6c, 0x65]);
    }
    if bytes_eq(name, &k) {
        return Some(Color { red: 147, green: 112, blue: 219, alpha: 255 });
    }
    let k: [u8; 14] = [0x6d, 0x65, 0x64, 0x69, 0x75, 0x6d, 0x73, 0x65, 0x61, 0x67, 0x72, 0x65, 0x65, 0x6e];
    proof {
        assert(k@ =~= seq![0x6du8, 0x65, 0x64, 0x69, 0x75, 0x6d, 0x73, 0x65, 0x61, 0x67, 0x72, 0x65, 0x65, 0x6e]);
    }
    if bytes_eq(name, &k) {
        return Some(Color { red: 60, green: 179, blue: 113, alpha: 255 });
    }
    let k: [u8; 15] = [0x6d, 0x65, 0x64, 0x69, 0x75, 0x6d, 0x73, 0x6c, 0x61, 0x74, 0x65, 0x62, 0x6c, 0x75, 0x65];
    proof {
        assert(k@ =~= seq![0x6du8, 0x65, 0x64, 0x69, 0x75, 0x6d, 0x73, 0x6c, 0x61, 0x74, 0x65, 0x62, 0x6c, 0x75, 0x65]);
    }
    if bytes_eq(name, &k) {
        return Some(Color { red: 123, green: 104, blue: 238, alpha: 255 });
    }
    let k: [u8; 17] = [0x6d, 0x65, 0x64, 0x69, 0x75, 0x6d, 0x73, 0x70, 0x72, 0x69, 0x6e, 0x67, 0x67, 0x72, 0x65, 0x65, 0x6e];
    proof {
        assert(k@ =~= seq![0x6du8, 0x65, 0x64, 0x69, 0x75, 0x6d, 0x73, 0x70, 0x72, 0x69, 0x6e, 0x67, 0x67, 0x72, 0x65, 0x65, 0x6e]);
    }
    if bytes_eq(name, &k) {
        return Some(Color { red: 0, green: 250, blue: 154, alpha: 255 });
    }
    let k: [u8; 15] = [0x6d, 0x65, 0x64, 0x69, 0x75, 0x6d, 0x74, 0x75, 0x72, 0x71, 0x75, 0x6f, 0x69, 0x73, 0x65];
    proof {
        assert(k@ =~= seq![0x6du8, 0x65, 0x64, 0x69, 0x75, 0x6d, 0x74, 0x75, 0x72, 0x71, 0x75, 0x6f, 0x69, 0x73, 0x65]);
    }
    if bytes_eq(name, &k) {
        return Some(Color { red: 72, green: 209, blue: 204, alpha: 255 });
    }
    let k: [u8; 15] = [0x6d, 0x65, 0x64, 0x69, 0x75, 0x6d, 0x76, 0x69, 0x6f, 0x6c, 0x65, 0x74, 0x72, 0x65, 0x64];
    proof {
        assert(k@ =~= seq![0x6du8, 0x65, 0x64, 0x69, 0x75, 0x6d, 0x76, 0x69, 0x6f, 0x6c, 0x65, 0x74, 0x72, 0x65, 0x64]);
    }
    if bytes_eq(name, &k) {
        return Some(Color { red: 199, green: 21, blue: 133, alpha: 255 });
    }
    let k: [u8; 12] = [0x6d, 0x69, 0x64, 0x6e, 0x69, 0x67, 0x68, 0x74, 0x62, 0x6c, 0x75, 0x65];
    proof {
        assert(k@ =~= seq![0x6du8, 0x69, 0x64, 0x6e, 0x69, 0x67, 0x68, 0x74, 0x62, 0x6c, 0x75, 0x65]);
    }
    if bytes_eq(name, &k) {
        return Some(Color { red: 25, green: 25, blue: 112, alpha: 255 });
    }
    let k: [u8; 9] = [0x6d, 0x69, 0x6e, 0x74, 0x63, 0x72, 0x65, 0x61, 0x6d];
    proof {
        assert(k@ =~= seq![0x6du8, 0x69, 0x6e, 0x74, 0x63, 0x72, 0x65, 0x61, 0x6d]);
    }
    if bytes_eq(name, &k) {
        return Some(Color { red: 245, green: 255, blue: 250, alpha: 255 });
    }
    let k: [u8; 9] = [0x6d, 0x69, 0x73, 0x74, 0x79, 0x72, 0x6f, 0x73, 0x65];
    proof {
        assert(k@ =~= seq![0x6du8, 0x69, 0x73, 0x74, 0x79, 0x72, 0x6f, 0x73, 0x65]);
    }
    if bytes_eq(name, &k) {
        return Some(Color { red: 255, green: 228, blue: 225, alpha: 255 });
    }
    let k: [u8; 8] = [0x6d, 0x6f, 0x63, 0x63, 0x61, 0x73, 0x69, 0x6e];
    proof {
        assert(k@ =~= seq![0x6du8, 0x6f, 0x63, 0x63, 0x61, 0x73, 0x69, 0x6e]);
    }
    if bytes_eq(name, &k) {
        return Some(Color { red: 255, green: 228, blue: 181, alpha: 255 });
    }
    None
}

fn from_name_n(name: &[u8]) -> (r: Option<Color>)
    ensures
        r == named_color_n(name@),
{
    let k: [u8; 11] = [0x6e, 0x61, 0x76, 0x61, 0x6a, 0x6f, 0x77, 0x68, 0x69, 0x74, 0x65];
    proof {
        assert(k@ =~= seq![0x6eu8, 0x61, 0x76, 0x61, 0x6a, 0x6f, 0x77, 0x68, 0x69, 0x74, 0x65]);
    }
    if bytes_eq(name, &k) {
        return Some(Color { red: 255, green: 222, blue: 173, alpha: 255 });
    }
    let k: [u8; 4] = [0x6e, 0x61, 0x76, 0x79];
    proof {
        assert(k@ =~= seq![0x6eu8, 0x61, 0x76, 0x79]);
    }
    if bytes_eq(name, &k) {
        return Some(Color { red: 0, green: 0, blue: 128, alpha: 255 });
    }
    None
}

fn from_name_o(name: &[u8]) -> (r: Option<Color>)
    ensures
        r == named_color_o(name@),
{
    let k: [u8; 7] = [0x6f, 0x6c, 0x64, 0x6c, 0x61, 0x63, 0x65];
    proof {
        assert(k@ =~= seq![0x6fu8, 0x6c, 0x64, 0x6c, 0x61, 0x63, 0x65]);
    }
    if bytes_eq(name, &k) {
        return Some(Color { red: 253, green: 245, blue: 230, alpha: 255 });
    }
    let k: [u8; 5] = [0x6f, 0x6c, 0x69, 0x76, 0x65];
    proof {
        assert(k@ =~= seq![0x6fu8, 0x6c, 0x69, 0x76, 0x65]);
    }
    if bytes_eq(name, &k) {
        return Some(Color { red: 128, green: 128, blue: 0, alpha: 255 });
    }
    let k: [u8; 9] = [0x6f, 0x6c, 0x69, 0x76, 0x65, 0x64, 0x72, 0x61, 0x62];
    proof {
        assert(k@ =~= seq![0x6fu8, 0x6c, 0x69, 0x76, 0x65, 0x64, 0x72, 0x61, 0x62]);
    }
    if bytes_eq(name, &k) {
        return Some(Color { red: 107, green: 142, blue: 35, alpha: 255 });
    }
    let k: [u8; 6] = [0x6f, 0x72, 0x61, 0x6e, 0x67, 0x65];
    proof {
        assert(k@ =~= seq![0x6fu8, 0x72, 0x61, 0x6e, 0x67, 0x65]);
    }
    if bytes_eq(name, &k) {
        return Some(Color { red: 255, green: 165, blue: 0, alpha: 255 });
    }
    let k: [u8; 9] = [0x6f, 0x72, 0x61, 0x6e, 0x67, 0x65, 0x72, 0x65, 0x64];
    proof {
        assert(k@ =~= seq![0x6fu8, 0x72, 0x61, 0x6e, 0x67, 0x65, 0x72, 0x65, 0x64]);
    }
    if bytes_eq(name, &k) {
        return Some(Color { red: 255, green: 69, blue: 0, alpha: 255 });
    }
    let k: [u8; 6] = [0x6f, 0x72, 0x63, 0x68, 0x69, 0x64];
    proof {
        assert(k@ =~= seq![0x6fu8, 0x72, 0x63, 0x68, 0x69, 0x64]);
    }
    if bytes_eq(name, &k) {
        return Some(Color { red: 218, green: 112, blue: 214, alpha: 255 });
    }
    None
}

fn from_name_p(name: &[u8]) -> (r: Option<Color>)
    ensures
        r == named_color_p(name@),
{
    let k: [u8; 13] = [0x70, 0x61, 0x6c, 0x65, 0x67, 0x6f, 0x6c, 0x64, 0x65, 0x6e, 0x72, 0x6f, 0x64];
    proof {
        assert(k@ =~= seq![0x70u8, 0x61, 0x6c, 0x65, 0x67, 0x6f, 0x6c, 0x64, 0x65, 0x6e, 0x72, 0x6f, 0x64]);
    }
    if bytes_eq(name, &k) {
        return Some(Color { red: 238, green: 232, blue: 170, alpha: 255 });
    }
    let k: [u8; 9] = [0x70, 0x61, 0x6c, 0x65, 0x67, 0x72, 0x65, 0x65, 0x6e];
    proof {
        assert(k@ =~= seq![0x70u8, 0x61, 0x6c, 0x65, 0x67, 0x72, 0x65, 0x65, 0x6e]);
    }
    if bytes_eq(name, &k) {
        return Some(Color { red: 152, green: 251, blue: 152, alpha: 255 });
    }
    let k: [u8; 13] = [0x70, 0x61, 0x6c, 0x65, 0x74, 0x75, 0x72, 0x71, 0x75, 0x6f, 0x69, 0x73, 0x65];
    proof {
        assert(k@ =~= seq![0x70u8, 0x61, 0x6c, 0x65, 0x74, 0x75, 0x72, 0x71, 0x75, 0x6f, 0x69, 0x73, 0x65]);
    }
    if bytes_eq(name, &k) {
        return Some(Color { red: 175, green: 238, blue: 238, alpha: 255 });
    }
    let k: [u8; 13] = [0x70, 0x61, 0x6c, 0x65, 0x76, 0x69, 0x6f, 0x6c, 0x65, 0x74, 0x72, 0x65, 0x64];
    proof {
        assert(k@ =~= seq![0x70u8, 0x61, 0x6c, 0x65, 0x76, 0x69, 0x6f, 0x6c, 0x65, 0x74, 0x72, 0x65, 0x64]);
    }
    if bytes_eq(name, &k) {
        return Some(Color { red: 219, green: 112, blue: 147, alpha: 255 });
    }
    let k: [u8; 10] = [0x70, 0x61, 0x70, 0x61, 0x79, 0x61, 0x77, 0x68, 0x69, 0x70];
    proof {
        assert(k@ =~= seq![0x70u8, 0x61, 0x70, 0x61, 0x79, 0x61, 0x77, 0x68, 0x69, 0x70]);
    }
    if bytes_eq(name, &k) {
        return Some(Color { red: 255, green: 239, blue: 213, alpha: 255 });
    }
    let k: [u8; 9] = [0x70, 0x65, 0x61, 0x63, 0x68, 0x70, 0x75, 0x66, 0x66];
    proof {
        assert(k@ =~= seq![0x70u8, 0x65, 0x61, 0x63, 0x68, 0x70, 0x75, 0x66, 0x66]);
    }
    if bytes_eq(name, &k) {
        return Some(Color { red: 255, green: 218, blue: 185, alpha: 255 });
    }
    let k: [u8; 4] = [0x70, 0x65, 0x72, 0x75];
    proof {
        assert(k@ =~= seq![0x70u8, 0x65, 0x72, 0x75]);
    }
    if bytes_eq(name, &k) {
        return Some(Color { red: 205, green: 133, blue: 63, alpha: 255 });
    }
    let k: [u8; 4] = [0x70, 0x69, 0x6e, 0x6b];
    proof {
        assert(k@ =~= seq![0x70u8, 0x69, 0x6e, 0x6b]);
    }
    if bytes_eq(name, &k) {
        return Some(Color { red: 255, green: 192, blue: 203, alpha: 255 });
    }
    let k: [u8; 4] = [0x70, 0x6c, 0x75, 0x6d];
    proof {
        assert(k@ =~= seq![0x70u8, 0x6c, 0x75, 0x6d]);
    }
    if bytes_eq(name, &k) {
        return Some(Color { red: 221, green: 160, blue: 221, alpha: 255 });
    }
    let k: [u8; 10] = [0x70, 0x6f, 0x77, 0x64, 0x65, 0x72, 0x62, 0x6c, 0x75, 0x65];
    proof {
        assert(k@ =~= seq![0x70u8, 0x6f, 0x77, 0x64, 0x65, 0x72, 0x62, 0x6c, 0x75, 0x65]);
    }
    if bytes_eq(name, &k) {
        return Some(Color { red: 176, green: 224, blue: 230, alpha: 255 });
    }
    let k: [u8; 6] = [0x70, 0x75, 0x72, 0x70, 0x6c, 0x65];
    proof {
        assert(k@ =~= seq![0x70u8, 0x75, 0x72, 0x70, 0x6c, 0x65]);
    }
    if bytes_eq(name, &k) {
        return Some(Color { red: 128, green: 0, blue: 128, alpha: 255 });
    }
    None
}

fn from_name_r(name: &[u8]) -> (r: Option<Color>)
    ensures
        r == named_color_r(name@),
{
    let k: [u8; 13] = [0x72, 0x65, 0x62, 0x65, 0x63, 0x63, 0x61, 0x70, 0x75, 0x72, 0x70, 0x6c, 0x65];
    proof {
        assert(k@ =~= seq![0x72u8, 0x65, 0x62, 0x65, 0x63, 0x63, 0x61, 0x70, 0x75, 0x72, 0x70, 0x6c, 0x65]);
    }
    if bytes_eq(name, &k) {
        return Some(Color { red: 102, green: 51, blue: 153, alpha: 255 });
    }
    let k: [u8; 3] = [0x72, 0x65, 0x64];
    proof {
        assert(k@ =~= seq![0x72u8, 0x65, 0x64]);
    }
    if bytes_eq(name, &k) {
        return Some(Color { red: 255, green: 0, blue: 0, alpha: 255 });
    }
    let k: [u8; 9] = [0x72, 0x6f, 0x73, 0x79, 0x62, 0x72, 0x6f, 0x77, 0x6e];
    proof {
        assert(k@ =~= seq![0x72u8, 0x6f, 0x73, 0x79, 0x62, 0x72, 0x6f, 0x77, 0x6e]);
    }
    if bytes_eq(name, &k) {
        return Some(Color { red: 188, green: 143, blue: 143, alpha: 255 });
    }
    let k: [u8; 9] = [0x72, 0x6f, 0x79, 0x61, 0x6c, 0x62, 0x6c, 0x75, 0x65];
    proof {
        assert(k@ =~= seq![0x72u8, 0x6f, 0x79, 0x61, 0x6c, 0x62, 0x6c, 0x75, 0x65]);
    }
    if bytes_eq(name, &k) {
        return Some(Color { red: 65, green: 105, blue: 225, alpha: 255 });
    }
    None
}

fn from_name_s(name: &[u8]) -> (r: Option<Color>)
    ensures
        r == named_color_s(name@),
{
    let k: [u8; 11] = [0x73, 0x61, 0x64, 0x64, 0x6c, 0x65, 0x62, 0x72, 0x6f, 0x77, 0x6e];
    proof {
        assert(k@ =~= seq![0x73u8, 0x61, 0x64, 0x64, 0x6c, 0x65, 0x62, 0x72, 0x6f, 0x77, 0x6e]);
    }
    if bytes_eq(name, &k) {
        return Some(Color { red: 139, green: 69, blue: 19, alpha: 255 });
    }
    let k: [u8; 6] = [0x73, 0x61, 0x6c, 0x6d, 0x6f, 0x6e];
    proof {
        assert(k@ =~= seq![0x73u8, 0x61, 0x6c, 0x6d, 0x6f, 0x6e]);
    }
    if bytes_eq(name, &k) {
        return Some(Color { red: 250, green: 128, blue: 114, alpha: 255 });
    }
    let k: [u8; 10] = [0x73, 0x61, 0x6e, 0x64, 0x79, 0x62, 0x72, 0x6f, 0x77, 0x6e];
    proof {
        assert(k@ =~= seq![0x73u8, 0x61, 0x6e, 0x64, 0x79, 0x62, 0x72, 0x6f, 0x77, 0x6e]);
    }
    if bytes_eq(name, &k) {
        return Some(Color { red: 244, green: 164, blue: 96, alpha: 255 });
    }
    let k: [u8; 8] = [0x73, 0x65, 0x61, 0x67, 0x72, 0x65, 0x65, 0x6e];
    proof {
        assert(k@ =~= seq![0x73u8, 0x65, 0x61, 0x67, 0x72, 0x65, 0x65, 0x6e]);
    }
    if bytes_eq(name, &k) {
        return Some(Color { red: 46, green: 139, blue: 87, alpha: 255 });
    }
    let k: [u8; 8] = [0x73, 0x65, 0x61, 0x73, 0x68, 0x65, 0x6c, 0x6c];
    proof {
        assert(k@ =~= seq![0x73u8, 0x65, 0x61, 0x73, 0x68, 0x65, 0x6c, 0x6c]);
    }
    if bytes_eq(name, &k) {
        return Some(Color { red: 255, green: 245, blue: 238, alpha: 255 });
    }
    let k: [u8; 6] = [0x73, 0x69, 0x65, 0x6e, 0x6e, 0x61];
    proof {
        assert(k@ =~= seq![0x73u8, 0x69, 0x65, 0x6e, 0x6e, 0x61]);
    }
    if bytes_eq(name, &k) {
        return Some(Color { red: 160, green: 82, blue: 45, alpha: 255 });
    }
    let k: [u8; 6] = [0x73, 0x69, 0x6c, 0x76, 0x65, 0x72];
    proof {
        assert(k@ =~= seq![0x73u8, 0x69, 0x6c, 0x76, 0x65, 0x72]);
    }
    if bytes_eq(name, &k) {
        return Some(Color { red: 192, green: 192, blue: 192, alpha: 255 });
    }
    let k: [u8; 7] = [0x73, 0x6b, 0x79, 0x62, 0x6c, 0x75, 0x65];
    proof {
        assert(k@ =~= seq![0x73u8, 0x6b, 0x79, 0x62, 0x6c, 0x75, 0x65]);
    }
    if bytes_eq(name, &k) {
        return Some(Color { red: 135, green: 206, blue: 235, alpha: 255 });
    }
    let k: [u8; 9] = [0x73, 0x6c, 0x61, 0x74, 0x65, 0x62, 0x6c, 0x75, 0x65];
    proof {
        assert(k@ =~= seq![0x73u8, 0x6c, 0x61, 0x74, 0x65, 0x62, 0x6c, 0x75, 0x65]);
    }
    if bytes_eq(name, &k) {
        return Some(Color { red: 106, green: 90, blue: 205, alpha: 255 });
    }
    let k: [u8; 9] = [0x73, 0x6c, 0x61, 0x74, 0x65, 0x67, 0x72, 0x61, 0x79];
    proof {
        assert(k@ =~= seq![0x73u8, 0x6c, 0x61, 0x74, 0x65, 0x67, 0x72, 0x61, 0x79]);
    }
    if bytes_eq(name, &k) {
        return Some(Color { red: 112, green: 128, blue: 144, alpha: 255 });
    }
    let k: [u8; 9] = [0x73, 0x6c, 0x61, 0x74, 0x65, 0x67, 0x72, 0x65, 0x79];
    proof {
        assert(k@ =~= seq![0x73u8, 0x6c, 0x61, 0x74, 0x65, 0x67, 0x72, 0x65, 0x79]);
    }
    if bytes_eq(name, &k) {
        return Some(Color { red: 112, green: 128, blue: 144, alpha: 255 });
    }
    let k: [u8; 4] = [0x73, 0x6e, 0x6f, 0x77];
    proof {
        assert(k@ =~= seq![0x73u8, 0x6e, 0x6f, 0x77]);
    }
    if bytes_eq(name, &k) {
        return Some(Color { red: 255, green: 250, blue: 250, alpha: 255 });
    }
    let k: [u8; 11] = [0x73, 0x70, 0x72, 0x69, 0x6e, 0x67, 0x67, 0x72, 0x65, 0x65, 0x6e];
    proof {
        assert(k@ =~= seq![0x73u8, 0x70, 0x72, 0x69, 0x6e, 0x67, 0x67, 0x72, 0x65, 0x65, 0x6e]);
    }
    if bytes_eq(name, &k) {
        return Some(Color { red: 0, green: 255, blue: 127, alpha: 255 });
    }
    let k: [u8; 9] = [0x73, 0x74, 0x65, 0x65, 0x6c, 0x62, 0x6c, 0x75, 0x65];
    proof {
        assert(k@ =~= seq![0x73u8, 0x74, 0x65, 0x65, 0x6c, 0x62, 0x6c, 0x75, 0x65]);
    }
    if bytes_eq(name, &k) {
        return Some(Color { red: 70, green: 130, blue: 180, alpha: 255 });
    }
    None
}

fn from_name_t(name: &[u8]) -> (r: Option<Color>)
    ensures
        r == named_color_t(name@),
{
    let k: [u8; 3] = [0x74, 0x61, 0x6e];
    proof {
        assert(k@ =~= seq![0x74u8, 0x61, 0x6e]);
    }
    if bytes_eq(name, &k) {
        return Some(Color { red: 210, green: 180, blue: 140, alpha: 255 });
    }
    let k: [u8; 4] = [0x74, 0x65, 0x61, 0x6c];
    proof {
        assert(k@ =~= seq![0x74u8, 0x65, 0x61, 0x6c]);
    }
    if bytes_eq(name, &k) {
        return Some(Color { red: 0, green: 128, blue: 128, alpha: 255 });
    }
    let k: [u8; 7] = [0x74, 0x68, 0x69, 0x73, 0x74, 0x6c, 0x65];
    proof {
        assert(k@ =~= seq![0x74u8, 0x68, 0x69, 0x73, 0x74, 0x6c, 0x65]);
    }
    if bytes_eq(name, &k) {
        return Some(Color { red: 216, green: 191, blue: 216, alpha: 255 });
    }
    let k: [u8; 6] = [0x74, 0x6f, 0x6d, 0x61, 0x74, 0x6f];
    proof {
        assert(k@ =~= seq![0x74u8, 0x6f, 0x6d, 0x61, 0x74, 0x6f]);
    }
    if bytes_eq(name, &k) {
        return Some(Color { red: 255, green: 99, blue: 71, alpha: 255 });
    }
    let k: [u8; 11] = [0x74, 0x72, 0x61, 0x6e, 0x73, 0x70, 0x61, 0x72, 0x65, 0x6e, 0x74];
    proof {
        assert(k@ =~= seq![0x74u8, 0x72, 0x61, 0x6e, 0x73, 0x70, 0x61, 0x72, 0x65, 0x6e, 0x74]);
    }
    if bytes_eq(name, &k) {
        return Some(Color { red: 0, green: 0, blue: 0, alpha: 0 });
    }
    let k: [u8; 9] = [0x74, 0x75, 0x72, 0x71, 0x75, 0x6f, 0x69, 0x73, 0x65];
    proof {
        assert(k@ =~= seq![0x74u8, 0x75, 0x72, 0x71, 0x75, 0x6f, 0x69, 0x73, 0x65]);
    }
    if bytes_eq(name, &k) {
        return Some(Color { red: 64, green: 224, blue: 208, alpha: 255 });
    }
    None
}

fn from_name_v(name: &[u8]) -> (r: Option<Color>)
    ensures
        r == named_color_v(name@),
{
    let k: [u8; 6] = [0x76, 0x69, 0x6f, 0x6c, 0x65, 0x74];
    proof {
        assert(k@ =~= seq![0x76u8, 0x69, 0x6f, 0x6c, 0x65, 0x74]);
    }
    if bytes_eq(name, &k) {
        return Some(Color { red: 238, green: 130, blue: 238, alpha: 255 });
    }
    None
}

fn from_name_w(name: &[u8]) -> (r: Option<Color>)
    ensures
        r == named_color_w(name@),
{
    let k: [u8; 5] = [0x77, 0x68, 0x65, 0x61, 0x74];
    proof {
        assert(k@ =~= seq![0x77u8, 0x68, 0x65, 0x61, 0x74]);
    }
    if bytes_eq(name, &k) {
        return Some(Color { red: 245, green: 222, blue: 179, alpha: 255 });
    }
    let k: [u8; 5] = [0x77, 0x68, 0x69, 0x74, 0x65];
    proof {
        assert(k@ =~= seq![0x77u8, 0x68, 0x69, 0x74, 0x65]);
    }
    if bytes_eq(name, &k) {
        return Some(Color { red: 255, green: 255, blue: 255, alpha: 255 });
    }
    let k: [u8; 10] = [0x77, 0x68, 0x69, 0x74, 0x65, 0x73, 0x6d, 0x6f, 0x6b, 0x65];
    proof {
        assert(k@ =~= seq![0x77u8, 0x68, 0x69, 0x74, 0x65, 0x73, 0x6d, 0x6f, 0x6b, 0x65]);
    }
    if bytes_eq(name, &k) {
        return Some(Color { red: 245, green: 245, blue: 245, alpha: 255 });
    }
    None
}

fn from_name_y(name: &[u8]) -> (r: Option<Color>)
    ensures
        r == named_color_y(name@),
{
    let k: [u8; 6] = [0x79, 0x65, 0x6c, 0x6c, 0x6f, 0x77];
    proof {
        assert(k@ =~= seq![0x79u8, 0x65, 0x6c, 0x6c, 0x6f, 0x77]);
    }
    if bytes_eq(name, &k) {
        return Some(Color { red: 255, green: 255, blue: 0, alpha: 255 });
    }
    let k: [u8; 11] = [0x79, 0x65, 0x6c, 0x6c, 0x6f, 0x77, 0x67, 0x72, 0x65, 0x65, 0x6e];
    proof {
        assert(k@ =~= seq![0x79u8, 0x65, 0x6c, 0x6c, 0x6f, 0x77, 0x67, 0x72, 0x65, 0x65, 0x6e]);
    }
    if bytes_eq(name, &k) {
        return Some(Color { red: 154, green: 205, blue: 50, alpha: 255 });
    }
    None
}

// ---------------------------------------------------------------------------
// The color keywords
// ---------------------------------------------------------------------------

#[verifier::rlimit(50)]
proof fn lemma_named_colors_0()
    ensures
        // aliceblue: #f0f8ff
        named_color(seq![0x61u8, 0x6c, 0x69, 0x63, 0x65, 0x62, 0x6c, 0x75, 0x65]) == Some(Color { red: 240, green: 248, blue: 255, alpha: 255 }),
        // antiquewhite: #faebd7
        named_color(seq![0x61u8, 0x6e, 0x74, 0x69, 0x71, 0x75, 0x65, 0x77, 0x68, 0x69, 0x74, 0x65]) == Some(Color { red: 250, green: 235, blue: 215, alpha: 255 }),
        // aqua: #00ffff
        named_color(seq![0x61u8, 0x71, 0x75, 0x61]) == Some(Color { red: 0, green: 255, blue: 255, alpha: 255 }),
        // aquamarine: #7fffd4
        named_color(seq![0x61u8, 0x71, 0x75, 0x61, 0x6d, 0x61, 0x72, 0x69, 0x6e, 0x65]) == Some(Color { red: 127, green: 255, blue: 212, alpha: 255 }),
        // azure: #f0ffff
        named_color(seq![0x61u8, 0x7a, 0x75, 0x72, 0x65]) == Some(Color { red: 240, green: 255, blue: 255, alpha: 255 }),
{
    reveal(named_color);
}

#[verifier::rlimit(50)]
proof fn lemma_named_colors_1()
    ensures
        // beige: #f5f5dc
        named_color(seq![0x62u8, 0x65, 0x69, 0x67, 0x65]) == Some(Color { red: 245, green: 245, blue: 220, alpha: 255 }),
        // bisque: #ffe4c4
        named_color(seq![0x62u8, 0x69, 0x73, 0x71, 0x75, 0x65]) == Some(Color { red: 255, green: 228, blue: 196, alpha: 255 }),
        // black: #000000
        named_color(seq![0x62u8, 0x6c, 0x61, 0x63, 0x6b]) == Some(Color { red: 0, green: 0, blue: 0, alpha: 255 }),
        // blanchedalmond: #ffebcd
        named_color(seq![0x62u8, 0x6c, 0x61, 0x6e, 0x63, 0x68, 0x65, 0x64, 0x61, 0x6c, 0x6d, 0x6f, 0x6e, 0x64]) == Some(Color { red: 255, green: 235, blue: 205, alpha: 255 }),
        // blue: #0000ff
        named_color(seq![0x62u8, 0x6c, 0x75, 0x65]) == Some(Color { red: 0, green: 0, blue: 255, alpha: 255 }),
{
    reveal(named_color);
}

#[verifier::rlimit(50)]
proof fn lemma_named_colors_2()
    ensures
        // blueviolet: #8a2be2
        named_color(seq![0x62u8, 0x6c, 0x75, 0x65, 0x76, 0x69, 0x6f, 0x6c, 0x65, 0x74]) == Some(Color { red: 138, green: 43, blue: 226, alpha: 255 }),
        // brown: #a52a2a
        named_color(seq![0x62u8, 0x72, 0x6f, 0x77, 0x6e]) == Some(Color { red: 165, green: 42, blue: 42, alpha: 255 }),
        // burlywood: #deb887
        named_color(seq![0x62u8, 0x75, 0x72, 0x6c, 0x79, 0x77, 0x6f, 0x6f, 0x64]) == Some(Color { red: 222, green: 184, blue: 135, alpha: 255 }),
        // cadetblue: #5f9ea0
        named_color(seq![0x63u8, 0x61, 0x64, 0x65, 0x74, 0x62, 0x6c, 0x75, 0x65]) == Some(Color { red: 95, green: 158, blue: 160, alpha: 255 }),
        // chartreuse: #7fff00
        named_color(seq![0x63u8, 0x68, 0x61, 0x72, 0x74, 0x72, 0x65, 0x75, 0x73, 0x65]) == Some(Color { red: 127, green: 255, blue: 0, alpha: 255 }),
{
    reveal(named_color);
}

#[verifier::rlimit(50)]
proof fn lemma_named_colors_3()
    ensures
        // chocolate: #d2691e
        named_color(seq![0x63u8, 0x68, 0x6f, 0x63, 0x6f, 0x6c, 0x61, 0x74, 0x65]) == Some(Color { red: 210, green: 105, blue: 30, alpha: 255 }),
        // coral: #ff7f50
        named_color(seq![0x63u8, 0x6f, 0x72, 0x61, 0x6c]) == Some(Color { red: 255, green: 127, blue: 80, alpha: 255 }),
        // cornflowerblue: #6495ed
        named_color(seq![0x63u8, 0x6f, 0x72, 0x6e, 0x66, 0x6c, 0x6f, 0x77, 0x65, 0x72, 0x62, 0x6c, 0x75, 0x65]) == Some(Color { red: 100, green: 149, blue: 237, alpha: 255 }),
        // cornsilk: #fff8dc
        named_color(seq![0x63u8, 0x6f, 0x72, 0x6e, 0x73, 0x69, 0x6c, 0x6b]) == Some(Color { red: 255, green: 248, blue: 220, alpha: 255 }),
        // crimson: #dc143c
        named_color(seq![0x63u8, 0x72, 0x69, 0x6d, 0x73, 0x6f, 0x6e]) == Some(Color { red: 220, green: 20, blue: 60, alpha: 255 }),
{
    reveal(named_color);
}

#[verifier::rlimit(50)]
proof fn lemma_named_colors_4()
    ensures
        // cyan: #00ffff
        named_color(seq![0x63u8, 0x79, 0x61, 0x6e]) == Some(Color { red: 0, green: 255, blue: 255, alpha: 255 }),
        // darkblue: #00008b
        named_color(seq![0x64u8, 0x61, 0x72, 0x6b, 0x62, 0x6c, 0x75, 0x65]) == Some(Color { red: 0, green: 0, blue: 139, alpha: 255 }),
        // darkcyan: #008b8b
        named_color(seq![0x64u8, 0x61, 0x72, 0x6b, 0x63, 0x79, 0x61, 0x6e]) == Some(Color { red: 0, green: 139, blue: 139, alpha: 255 }),
        // darkgoldenrod: #b8860b
        named_color(seq![0x64u8, 0x61, 0x72, 0x6b, 0x67, 0x6f, 0x6c, 0x64, 0x65, 0x6e, 0x72, 0x6f, 0x64]) == Some(Color { red: 184, green: 134, blue: 11, alpha: 255 }),
        // darkgray: #a9a9a9
        named_color(seq![0x64u8, 0x61, 0x72, 0x6b, 0x67, 0x72, 0x61, 0x79]) == Some(Color { red: 169, green: 169, blue: 169, alpha: 255 }),
{
    reveal(named_color);
}

#[verifier::rlimit(50)]
proof fn lemma_named_colors_5()
    ensures
        // darkgreen: #006400
        named_color(seq![0x64u8, 0x61, 0x72, 0x6b, 0x67, 0x72, 0x65, 0x65, 0x6e]) == Some(Color { red: 0, green: 100, blue: 0, alpha: 255 }),
        // darkgrey: #a9a9a9
        named_color(seq![0x64u8, 0x61, 0x72, 0x6b, 0x67, 0x72, 0x65, 0x79]) == Some(Color { red: 169, green: 169, blue: 169, alpha: 255 }),
        // darkkhaki: #bdb76b
        named_color(seq![0x64u8, 0x61, 0x72, 0x6b, 0x6b, 0x68, 0x61, 0x6b, 0x69]) == Some(Color { red: 189, green: 183, blue: 107, alpha: 255 }),
        // darkmagenta: #8b008b
        named_color(seq![0x64u8, 0x61, 0x72, 0x6b, 0x6d, 0x61, 0x67, 0x65, 0x6e, 0x74, 0x61]) == Some(Color { red: 139, green: 0, blue: 139, alpha: 255 }),
        // darkolivegreen: #556b2f
        named_color(seq![0x64u8, 0x61, 0x72, 0x6b, 0x6f, 0x6c, 0x69, 0x76, 0x65, 0x67, 0x72, 0x65, 0x65, 0x6e]) == Some(Color { red: 85, green: 107, blue: 47, alpha: 255 }),
{
    reveal(named_color);
}

#[verifier::rlimit(50)]
proof fn lemma_named_colors_6()
    ensures
        // darkorange: #ff8c00
        named_color(seq![0x64u8, 0x61, 0x72, 0x6b, 0x6f, 0x72, 0x61, 0x6e, 0x67, 0x65]) == Some(Color { red: 255, green: 140, blue: 0, alpha: 255 }),
        // darkorchid: #9932cc
        named_color(seq![0x64u8, 0x61, 0x72, 0x6b, 0x6f, 0x72, 0x63, 0x68, 0x69, 0x64]) == Some(Color { red: 153, green: 50, blue: 204, alpha: 255 }),
        // darkred: #8b0000
        named_color(seq![0x64u8, 0x61, 0x72, 0x6b, 0x72, 0x65, 0x64]) == Some(Color { red: 139, green: 0, blue: 0, alpha: 255 }),
        // darksalmon: #e9967a
        named_color(seq![0x64u8, 0x61, 0x72, 0x6b, 0x73, 0x61, 0x6c, 0x6d, 0x6f, 0x6e]) == Some(Color { red: 233, green: 150, blue: 122, alpha: 255 }),
        // darkseagreen: #8fbc8f
        named_color(seq![0x64u8, 0x61, 0x72, 0x6b, 0x73, 0x65, 0x61, 0x67, 0x72, 0x65, 0x65, 0x6e]) == Some(Color { red: 143, green: 188, blue: 143, alpha: 255 }),
{
    reveal(named_color);
}

#[verifier::rlimit(50)]
proof fn lemma_named_colors_7()
    ensures
        // darkslateblue: #483d8b
        named_color(seq![0x64u8, 0x61, 0x72, 0x6b, 0x73, 0x6c, 0x61, 0x74, 0x65, 0x62, 0x6c, 0x75, 0x65]) == Some(Color { red: 72, green: 61, blue: 139, alpha: 255 }),
        // darkslategray: #2f4f4f
        named_color(seq![0x64u8, 0x61, 0x72, 0x6b, 0x73, 0x6c, 0x61, 0x74, 0x65, 0x67, 0x72, 0x61, 0x79]) == Some(Color { red: 47, green: 79, blue: 79, alpha: 255 }),
        // darkslategrey: #2f4f4f
        named_color(seq![0x64u8, 0x61, 0x72, 0x6b, 0x73, 0x6c, 0x61, 0x74, 0x65, 0x67, 0x72, 0x65, 0x79]) == Some(Color { red: 47, green: 79, blue: 79, alpha: 255 }),
        // darkturquoise: #00ced1
        named_color(seq![0x64u8, 0x61, 0x72, 0x6b, 0x74, 0x75, 0x72, 0x71, 0x75, 0x6f, 0x69, 0x73, 0x65]) == Some(Color { red: 0, green: 206, blue: 209, alpha: 255 }),
        // darkviolet: #9400d3
        named_color(seq![0x64u8, 0x61, 0x72, 0x6b, 0x76, 0x69, 0x6f, 0x6c, 0x65, 0x74]) == Some(Color { red: 148, green: 0, blue: 211, alpha: 255 }),
{
    reveal(named_color);
}

#[verifier::rlimit(50)]
proof fn lemma_named_colors_8()
    ensures
        // deeppink: #ff1493
        named_color(seq![0x64u8, 0x65, 0x65, 0x70, 0x70, 0x69, 0x6e, 0x6b]) == Some(Color { red: 255, green: 20, blue: 147, alpha: 255 }),
        // deepskyblue: #00bfff
        named_color(seq![0x64u8, 0x65, 0x65, 0x70, 0x73, 0x6b, 0x79, 0x62, 0x6c, 0x75, 0x65]) == Some(Color { red: 0, green: 191, blue: 255, alpha: 255 }),
        // dimgray: #696969
        named_color(seq![0x64u8, 0x69, 0x6d, 0x67, 0x72, 0x61, 0x79]) == Some(Color { red: 105, green: 105, blue: 105, alpha: 255 }),
        // dimgrey: #696969
        named_color(seq![0x64u8, 0x69, 0x6d, 0x67, 0x72, 0x65, 0x79]) == Some(Color { red: 105, green: 105, blue: 105, alpha: 255 }),
        // dodgerblue: #1e90ff
        named_color(seq![0x64u8, 0x6f, 0x64, 0x67, 0x65, 0x72, 0x62, 0x6c, 0x75, 0x65]) == Some(Color { red: 30, green: 144, blue: 255, alpha: 255 }),
{
    reveal(named_color);
}

#[verifier::rlimit(50)]
proof fn lemma_named_colors_9()
    ensures
        // firebrick: #b22222
        named_color(seq![0x66u8, 0x69, 0x72, 0x65, 0x62, 0x72, 0x69, 0x63, 0x6b]) == Some(Color { red: 178, green: 34, blue: 34, alpha: 255 }),
        // floralwhite: #fffaf0
        named_color(seq![0x66u8, 0x6c, 0x6f, 0x72, 0x61, 0x6c, 0x77, 0x68, 0x69, 0x74, 0x65]) == Some(Color { red: 255, green: 250, blue: 240, alpha: 255 }),
        // forestgreen: #228b22
        named_color(seq![0x66u8, 0x6f, 0x72, 0x65, 0x73, 0x74, 0x67, 0x72, 0x65, 0x65, 0x6e]) == Some(Color { red: 34, green: 139, blue: 34, alpha: 255 }),
        // fuchsia: #ff00ff
        named_color(seq![0x66u8, 0x75, 0x63, 0x68, 0x73, 0x69, 0x61]) == Some(Color { red: 255, green: 0, blue: 255, alpha: 255 }),
        // gainsboro: #dcdcdc
        named_color(seq![0x67u8, 0x61, 0x69, 0x6e, 0x73, 0x62, 0x6f, 0x72, 0x6f]) == Some(Color { red: 220, green: 220, blue: 220, alpha: 255 }),
{
    reveal(named_color);
}

#[verifier::rlimit(50)]
proof fn lemma_named_colors_10()
    ensures
        // ghostwhite: #f8f8ff
        named_color(seq![0x67u8, 0x68, 0x6f, 0x73, 0x74, 0x77, 0x68, 0x69, 0x74, 0x65]) == Some(Color { red: 248, green: 248, blue: 255, alpha: 255 }),
        // gold: #ffd700
        named_color(seq![0x67u8, 0x6f, 0x6c, 0x64]) == Some(Color { red: 255, green: 215, blue: 0, alpha: 255 }),
        // goldenrod: #daa520
        named_color(seq![0x67u8, 0x6f, 0x6c, 0x64, 0x65, 0x6e, 0x72, 0x6f, 0x64]) == Some(Color { red: 218, green: 165, blue: 32, alpha: 255 }),
        // gray: #808080
        named_color(seq![0x67u8, 0x72, 0x61, 0x79]) == Some(Color { red: 128, green: 128, blue: 128, alpha: 255 }),
        // green: #008000
        named_color(seq![0x67u8, 0x72, 0x65, 0x65, 0x6e]) == Some(Color { red: 0, green: 128, blue: 0, alpha: 255 }),
{
    reveal(named_color);
}

#[verifier::rlimit(50)]
proof fn lemma_named_colors_11()
    ensures
        // greenyellow: #adff2f
        named_color(seq![0x67u8, 0x72, 0x65, 0x65, 0x6e, 0x79, 0x65, 0x6c, 0x6c, 0x6f, 0x77]) == Some(Color { red: 173, green: 255, blue: 47, alpha: 255 }),
        // grey: #808080
        named_color(seq![0x67u8, 0x72, 0x65, 0x79]) == Some(Color { red: 128, green: 128, blue: 128, alpha: 255 }),
        // honeydew: #f0fff0
        named_color(seq![0x68u8, 0x6f, 0x6e, 0x65, 0x79, 0x64, 0x65, 0x77]) == Some(Color { red: 240, green: 255, blue: 240, alpha: 255 }),
        // hotpink: #ff69b4
        named_color(seq![0x68u8, 0x6f, 0x74, 0x70, 0x69, 0x6e, 0x6b]) == Some(Color { red: 255, green: 105, blue: 180, alpha: 255 }),
        // indianred: #cd5c5c
        named_color(seq![0x69u8, 0x6e, 0x64, 0x69, 0x61, 0x6e, 0x72, 0x65, 0x64]) == Some(Color { red: 205, green: 92, blue: 92, alpha: 255 }),
{
    reveal(named_color);
}

#[verifier::rlimit(50)]
proof fn lemma_named_colors_12()
    ensures
        // indigo: #4b0082
        named_color(seq![0x69u8, 0x6e, 0x64, 0x69, 0x67, 0x6f]) == Some(Color { red: 75, green: 0, blue: 130, alpha: 255 }),
        // ivory: #fffff0
        named_color(seq![0x69u8, 0x76, 0x6f, 0x72, 0x79]) == Some(Color { red: 255, green: 255, blue: 240, alpha: 255 }),
        // khaki: #f0e68c
        named_color(seq![0x6bu8, 0x68, 0x61, 0x6b, 0x69]) == Some(Color { red: 240, green: 230, blue: 140, alpha: 255 }),
        // lavender: #e6e6fa
        named_color(seq![0x6cu8, 0x61, 0x76, 0x65, 0x6e, 0x64, 0x65, 0x72]) == Some(Color { red: 230, green: 230, blue: 250, alpha: 255 }),
        // lavenderblush: #fff0f5
        named_color(seq![0x6cu8, 0x61, 0x76, 0x65, 0x6e, 0x64, 0x65, 0x72, 0x62, 0x6c, 0x75, 0x73, 0x68]) == Some(Color { red: 255, green: 240, blue: 245, alpha: 255 }),
{
    reveal(named_color);
}

#[verifier::rlimit(50)]
proof fn lemma_named_colors_13()
    ensures
        // lawngreen: #7cfc00
        named_color(seq![0x6cu8, 0x61, 0x77, 0x6e, 0x67, 0x72, 0x65, 0x65, 0x6e]) == Some(Color { red: 124, green: 252, blue: 0, alpha: 255 }),
        // lemonchiffon: #fffacd
        named_color(seq![0x6cu8, 0x65, 0x6d, 0x6f, 0x6e, 0x63, 0x68, 0x69, 0x66, 0x66, 0x6f, 0x6e]) == Some(Color { red: 255, green: 250, blue: 205, alpha: 255 }),
        // lightblue: #add8e6
        named_color(seq![0x6cu8, 0x69, 0x67, 0x68, 0x74, 0x62, 0x6c, 0x75, 0x65]) == Some(Color { red: 173, green: 216, blue: 230, alpha: 255 }),
        // lightcoral: #f08080
        named_color(seq![0x6cu8, 0x69, 0x67, 0x68, 0x74, 0x63, 0x6f, 0x72, 0x61, 0x6c]) == Some(Color { red: 240, green: 128, blue: 128, alpha: 255 }),
        // lightcyan: #e0ffff
        named_color(seq![0x6cu8, 0x69, 0x67, 0x68, 0x74, 0x63, 0x79, 0x61, 0x6e]) == Some(Color { red: 224, green: 255, blue: 255, alpha: 255 }),
{
    reveal(named_color);
}

#[verifier::rlimit(50)]
proof fn lemma_named_colors_14()
    ensures
        // lightgoldenrodyellow: #fafad2
        named_color(seq![0x6cu8, 0x69, 0x67, 0x68, 0x74, 0x67, 0x6f, 0x6c, 0x64, 0x65, 0x6e, 0x72, 0x6f, 0x64, 0x79, 0x65, 0x6c, 0x6c, 0x6f, 0x77]) == Some(Color { red: 250, green: 250, blue: 210, alpha: 255 }),
        // lightgray: #d3d3d3
        named_color(seq![0x6cu8, 0x69, 0x67, 0x68, 0x74, 0x67, 0x72, 0x61, 0x79]) == Some(Color { red: 211, green: 211, blue: 211, alpha: 255 }),
        // lightgreen: #90ee90
        named_color(seq![0x6cu8, 0x69, 0x67, 0x68, 0x74, 0x67, 0x72, 0x65, 0x65, 0x6e]) == Some(Color { red: 144, green: 238, blue: 144, alpha: 255 }),
        // lightgrey: #d3d3d3
        named_color(seq![0x6cu8, 0x69, 0x67, 0x68, 0x74, 0x67, 0x72, 0x65, 0x79]) == Some(Color { red: 211, green: 211, blue: 211, alpha: 255 }),
        // lightpink: #ffb6c1
        named_color(seq![0x6cu8, 0x69, 0x67, 0x68, 0x74, 0x70, 0x69, 0x6e, 0x6b]) == Some(Color { red: 255, green: 182, blue: 193, alpha: 255 }),
{
    reveal(named_color);
}

#[verifier::rlimit(50)]
proof fn lemma_named_colors_15()
    ensures
        // lightsalmon: #ffa07a
        named_color(seq![0x6cu8, 0x69, 0x67, 0x68, 0x74, 0x73, 0x61, 0x6c, 0x6d, 0x6f, 0x6e]) == Some(Color { red: 255, green: 160, blue: 122, alpha: 255 }),
        // lightseagreen: #20b2aa
        named_color(seq![0x6cu8, 0x69, 0x67, 0x68, 0x74, 0x73, 0x65, 0x61, 0x67, 0x72, 0x65, 0x65, 0x6e]) == Some(Color { red: 32, green: 178, blue: 170, alpha: 255 }),
        // lightskyblue: #87cefa
        named_color(seq![0x6cu8, 0x69, 0x67, 0x68, 0x74, 0x73, 0x6b, 0x79, 0x62, 0x6c, 0x75, 0x65]) == Some(Color { red: 135, green: 206, blue: 250, alpha: 255 }),
        // lightslategray: #778899
        named_color(seq![0x6cu8, 0x69, 0x67, 0x68, 0x74, 0x73, 0x6c, 0x61, 0x74, 0x65, 0x67, 0x72, 0x61, 0x79]) == Some(Color { red: 119, green: 136, blue: 153, alpha: 255 }),
        // lightslategrey: #778899
        named_color(seq![0x6cu8, 0x69, 0x67, 0x68, 0x74, 0x73, 0x6c, 0x61, 0x74, 0x65, 0x67, 0x72, 0x65, 0x79]) == Some(Color { red: 119, green: 136, blue: 153, alpha: 255 }),
{
    reveal(named_color);
}

#[verifier::rlimit(50)]
proof fn lemma_named_colors_16()
    ensures
        // lightsteelblue: #b0c4de
        named_color(seq![0x6cu8, 0x69, 0x67, 0x68, 0x74, 0x73, 0x74, 0x65, 0x65, 0x6c, 0x62, 0x6c, 0x75, 0x65]) == Some(Color { red: 176, green: 196, blue: 222, alpha: 255 }),
        // lightyellow: #ffffe0
        named_color(seq![0x6cu8, 0x69, 0x67, 0x68, 0x74, 0x79, 0x65, 0x6c, 0x6c, 0x6f, 0x77]) == Some(Color { red: 255, green: 255, blue: 224, alpha: 255 }),
        // lime: #00ff00
        named_color(seq![0x6cu8, 0x69, 0x6d, 0x65]) == Some(Color { red: 0, green: 255, blue: 0, alpha: 255 }),
        // limegreen: #32cd32
        named_color(seq![0x6cu8, 0x69, 0x6d, 0x65, 0x67, 0x72, 0x65, 0x65, 0x6e]) == Some(Color { red: 50, green: 205, blue: 50, alpha: 255 }),
        // linen: #faf0e6
        named_color(seq![0x6cu8, 0x69, 0x6e, 0x65, 0x6e]) == Some(Color { red: 250, green: 240, blue: 230, alpha: 255 }),
{
    reveal(named_color);
}

#[verifier::rlimit(50)]
proof fn lemma_named_colors_17()
    ensures
        // magenta: #ff00ff
        named_color(seq![0x6du8, 0x61, 0x67, 0x65, 0x6e, 0x74, 0x61]) == Some(Color { red: 255, green: 0, blue: 255, alpha: 255 }),
        // maroon: #800000
        named_color(seq![0x6du8, 0x61, 0x72, 0x6f, 0x6f, 0x6e]) == Some(Color { red: 128, green: 0, blue: 0, alpha: 255 }),
        // mediumaquamarine: #66cdaa
        named_color(seq![0x6du8, 0x65, 0x64, 0x69, 0x75, 0x6d, 0x61, 0x71, 0x75, 0x61, 0x6d, 0x61, 0x72, 0x69, 0x6e, 0x65]) == Some(Color { red: 102, green: 205, blue: 170, alpha: 255 }),
        // mediumblue: #0000cd
        named_color(seq![0x6du8, 0x65, 0x64, 0x69, 0x75, 0x6d, 0x62, 0x6c, 0x75, 0x65]) == Some(Color { red: 0, green: 0, blue: 205, alpha: 255 }),
        // mediumorchid: #ba55d3
        named_color(seq![0x6du8, 0x65, 0x64, 0x69, 0x75, 0x6d, 0x6f, 0x72, 0x63, 0x68, 0x69, 0x64]) == Some(Color { red: 186, green: 85, blue: 211, alpha: 255 }),
{
    reveal(named_color);
}

#[verifier::rlimit(50)]
proof fn lemma_named_colors_18()
    ensures
        // mediumpurple: #9370db
        named_color(seq![0x6du8, 0x65, 0x64, 0x69, 0x75, 0x6d, 0x70, 0x75, 0x72, 0x70, 0x6c, 0x65]) == Some(Color { red: 147, green: 112, blue: 219, alpha: 255 }),
        // mediumseagreen: #3cb371
        named_color(seq![0x6du8, 0x65, 0x64, 0x69, 0x75, 0x6d, 0x73, 0x65, 0x61, 0x67, 0x72, 0x65, 0x65, 0x6e]) == Some(Color { red: 60, green: 179, blue: 113, alpha: 255 }),
        // mediumslateblue: #7b68ee
        named_color(seq![0x6du8, 0x65, 0x64, 0x69, 0x75, 0x6d, 0x73, 0x6c, 0x61, 0x74, 0x65, 0x62, 0x6c, 0x75, 0x65]) == Some(Color { red: 123, green: 104, blue: 238, alpha: 255 }),
        // mediumspringgreen: #00fa9a
        named_color(seq![0x6du8, 0x65, 0x64, 0x69, 0x75, 0x6d, 0x73, 0x70, 0x72, 0x69, 0x6e, 0x67, 0x67, 0x72, 0x65, 0x65, 0x6e]) == Some(Color { red: 0, green: 250, blue: 154, alpha: 255 }),
        // mediumturquoise: #48d1cc
        named_color(seq![0x6du8, 0x65, 0x64, 0x69, 0x75, 0x6d, 0x74, 0x75, 0x72, 0x71, 0x75, 0x6f, 0x69, 0x73, 0x65]) == Some(Color { red: 72, green: 209, blue: 204, alpha: 255 }),
{
    reveal(named_color);
}

#[verifier::rlimit(50)]
proof fn lemma_named_colors_19()
    ensures
        // mediumvioletred: #c71585
        named_color(seq![0x6du8, 0x65, 0x64, 0x69, 0x75, 0x6d, 0x76, 0x69, 0x6f, 0x6c, 0x65, 0x74, 0x72, 0x65, 0x64]) == Some(Color { red: 199, green: 21, blue: 133, alpha: 255 }),
        // midnightblue: #191970
        named_color(seq![0x6du8, 0x69, 0x64, 0x6e, 0x69, 0x67, 0x68, 0x74, 0x62, 0x6c, 0x75, 0x65]) == Some(Color { red: 25, green: 25, blue: 112, alpha: 255 }),
        // mintcream: #f5fffa
        named_color(seq![0x6du8, 0x69, 0x6e, 0x74, 0x63, 0x72, 0x65, 0x61, 0x6d]) == Some(Color { red: 245, green: 255, blue: 250, alpha: 255 }),
        // mistyrose: #ffe4e1
        named_color(seq![0x6du8, 0x69, 0x73, 0x74, 0x79, 0x72, 0x6f, 0x73, 0x65]) == Some(Color { red: 255, green: 228, blue: 225, alpha: 255 }),
        // moccasin: #ffe4b5
        named_color(seq![0x6du8, 0x6f, 0x63, 0x63, 0x61, 0x73, 0x69, 0x6e]) == Some(Color { red: 255, green: 228, blue: 181, alpha: 255 }),
{
    reveal(named_color);
}

#[verifier::rlimit(50)]
proof fn lemma_named_colors_20()
    ensures
        // navajowhite: #ffdead
        named_color(seq![0x6eu8, 0x61, 0x76, 0x61, 0x6a, 0x6f, 0x77, 0x68, 0x69, 0x74, 0x65]) == Some(Color { red: 255, green: 222, blue: 173, alpha: 255 }),
        // navy: #000080
        named_color(seq![0x6eu8, 0x61, 0x76, 0x79]) == Some(Color { red: 0, green: 0, blue: 128, alpha: 255 }),
        // oldlace: #fdf5e6
        named_color(seq![0x6fu8, 0x6c, 0x64, 0x6c, 0x61, 0x63, 0x65]) == Some(Color { red: 253, green: 245, blue: 230, alpha: 255 }),
        // olive: #808000
        named_color(seq![0x6fu8, 0x6c, 0x69, 0x76, 0x65]) == Some(Color { red: 128, green: 128, blue: 0, alpha: 255 }),
        // olivedrab: #6b8e23
        named_color(seq![0x6fu8, 0x6c, 0x69, 0x76, 0x65, 0x64, 0x72, 0x61, 0x62]) == Some(Color { red: 107, green: 142, blue: 35, alpha: 255 }),
{
    reveal(named_color);
}

#[verifier::rlimit(50)]
proof fn lemma_named_colors_21()
    ensures
        // orange: #ffa500
        named_color(seq![0x6fu8, 0x72, 0x61, 0x6e, 0x67, 0x65]) == Some(Color { red: 255, green: 165, blue: 0, alpha: 255 }),
        // orangered: #ff4500
        named_color(seq![0x6fu8, 0x72, 0x61, 0x6e, 0x67, 0x65, 0x72, 0x65, 0x64]) == Some(Color { red: 255, green: 69, blue: 0, alpha: 255 }),
        // orchid: #da70d6
        named_color(seq![0x6fu8, 0x72, 0x63, 0x68, 0x69, 0x64]) == Some(Color { red: 218, green: 112, blue: 214, alpha: 255 }),
        // palegoldenrod: #eee8aa
        named_color(seq![0x70u8, 0x61, 0x6c, 0x65, 0x67, 0x6f, 0x6c, 0x64, 0x65, 0x6e, 0x72, 0x6f, 0x64]) == Some(Color { red: 238, green: 232, blue: 170, alpha: 255 }),
        // palegreen: #98fb98
        named_color(seq![0x70u8, 0x61, 0x6c, 0x65, 0x67, 0x72, 0x65, 0x65, 0x6e]) == Some(Color { red: 152, green: 251, blue: 152, alpha: 255 }),
{
    reveal(named_color);
}

#[verifier::rlimit(50)]
proof fn lemma_named_colors_22()
    ensures
        // paleturquoise: #afeeee
        named_color(seq![0x70u8, 0x61, 0x6c, 0x65, 0x74, 0x75, 0x72, 0x71, 0x75, 0x6f, 0x69, 0x73, 0x65]) == Some(Color { red: 175, green: 238, blue: 238, alpha: 255 }),
        // palevioletred: #db7093
        named_color(seq![0x70u8, 0x61, 0x6c, 0x65, 0x76, 0x69, 0x6f, 0x6c, 0x65, 0x74, 0x72, 0x65, 0x64]) == Some(Color { red: 219, green: 112, blue: 147, alpha: 255 }),
        // papayawhip: #ffefd5
        named_color(seq![0x70u8, 0x61, 0x70, 0x61, 0x79, 0x61, 0x77, 0x68, 0x69, 0x70]) == Some(Color { red: 255, green: 239, blue: 213, alpha: 255 }),
        // peachpuff: #ffdab9
        named_color(seq![0x70u8, 0x65, 0x61, 0x63, 0x68, 0x70, 0x75, 0x66, 0x66]) == Some(Color { red: 255, green: 218, blue: 185, alpha: 255 }),
        // peru: #cd853f
        named_color(seq![0x70u8, 0x65, 0x72, 0x75]) == Some(Color { red: 205, green: 133, blue: 63, alpha: 255 }),
{
    reveal(named_color);
}

#[verifier::rlimit(50)]
proof fn lemma_named_colors_23()
    ensures
        // pink: #ffc0cb
        named_color(seq![0x70u8, 0x69, 0x6e, 0x6b]) == Some(Color { red: 255, green: 192, blue: 203, alpha: 255 }),
        // plum: #dda0dd
        named_color(seq![0x70u8, 0x6c, 0x75, 0x6d]) == Some(Color { red: 221, green: 160, blue: 221, alpha: 255 }),
        // powderblue: #b0e0e6
        named_color(seq![0x70u8, 0x6f, 0x77, 0x64, 0x65, 0x72, 0x62, 0x6c, 0x75, 0x65]) == Some(Color { red: 176, green: 224, blue: 230, alpha: 255 }),
        // purple: #800080
        named_color(seq![0x70u8, 0x75, 0x72, 0x70, 0x6c, 0x65]) == Some(Color { red: 128, green: 0, blue: 128, alpha: 255 }),
        // rebeccapurple: #663399
        named_color(seq![0x72u8, 0x65, 0x62, 0x65, 0x63, 0x63, 0x61, 0x70, 0x75, 0x72, 0x70, 0x6c, 0x65]) == Some(Color { red: 102, green: 51, blue: 153, alpha: 255 }),
{
    reveal(named_color);
}

#[verifier::rlimit(50)]
proof fn lemma_named_colors_24()
    ensures
        // red: #ff0000
        named_color(seq![0x72u8, 0x65, 0x64]) == Some(Color { red: 255, green: 0, blue: 0, alpha: 255 }),
        // rosybrown: #bc8f8f
        named_color(seq![0x72u8, 0x6f, 0x73, 0x79, 0x62, 0x72, 0x6f, 0x77, 0x6e]) == Some(Color { red: 188, green: 143, blue: 143, alpha: 255 }),
        // royalblue: #4169e1
        named_color(seq![0x72u8, 0x6f, 0x79, 0x61, 0x6c, 0x62, 0x6c, 0x75, 0x65]) == Some(Color { red: 65, green: 105, blue: 225, alpha: 255 }),
        // saddlebrown: #8b4513
        named_color(seq![0x73u8, 0x61, 0x64, 0x64, 0x6c, 0x65, 0x62, 0x72, 0x6f, 0x77, 0x6e]) == Some(Color { red: 139, green: 69, blue: 19, alpha: 255 }),
        // salmon: #fa8072
        named_color(seq![0x73u8, 0x61, 0x6c, 0x6d, 0x6f, 0x6e]) == Some(Color { red: 250, green: 128, blue: 114, alpha: 255 }),
{
    reveal(named_color);
}

#[verifier::rlimit(50)]
proof fn lemma_named_colors_25()
    ensures
        // sandybrown: #f4a460
        named_color(seq![0x73u8, 0x61, 0x6e, 0x64, 0x79, 0x62, 0x72, 0x6f, 0x77, 0x6e]) == Some(Color { red: 244, green: 164, blue: 96, alpha: 255 }),
        // seagreen: #2e8b57
        named_color(seq![0x73u8, 0x65, 0x61, 0x67, 0x72, 0x65, 0x65, 0x6e]) == Some(Color { red: 46, green: 139, blue: 87, alpha: 255 }),
        // seashell: #fff5ee
        named_color(seq![0x73u8, 0x65, 0x61, 0x73, 0x68, 0x65, 0x6c, 0x6c]) == Some(Color { red: 255, green: 245, blue: 238, alpha: 255 }),
        // sienna: #a0522d
        named_color(seq![0x73u8, 0x69, 0x65, 0x6e, 0x6e, 0x61]) == Some(Color { red: 160, green: 82, blue: 45, alpha: 255 }),
        // silver: #c0c0c0
        named_color(seq![0x73u8, 0x69, 0x6c, 0x76, 0x65, 0x72]) == Some(Color { red: 192, green: 192, blue: 192, alpha: 255 }),
{
    reveal(named_color);
}

#[verifier::rlimit(50)]
proof fn lemma_named_colors_26()
    ensures
        // skyblue: #87ceeb
        named_color(seq![0x73u8, 0x6b, 0x79, 0x62, 0x6c, 0x75, 0x65]) == Some(Color { red: 135, green: 206, blue: 235, alpha: 255 }),
        // slateblue: #6a5acd
        named_color(seq![0x73u8, 0x6c, 0x61, 0x74, 0x65, 0x62, 0x6c, 0x75, 0x65]) == Some(Color { red: 106, green: 90, blue: 205, alpha: 255 }),
        // slategray: #708090
        named_color(seq![0x73u8, 0x6c, 0x61, 0x74, 0x65, 0x67, 0x72, 0x61, 0x79]) == Some(Color { red: 112, green: 128, blue: 144, alpha: 255 }),
        // slategrey: #708090
        named_color(seq![0x73u8, 0x6c, 0x61, 0x74, 0x65, 0x67, 0x72, 0x65, 0x79]) == Some(Color { red: 112, green: 128, blue: 144, alpha: 255 }),
        // snow: #fffafa
        named_color(seq![0x73u8, 0x6e, 0x6f, 0x77]) == Some(Color { red: 255, green: 250, blue: 250, alpha: 255 }),
{
    reveal(named_color);
}

#[verifier::rlimit(50)]
proof fn lemma_named_colors_27()
    ensures
        // springgreen: #00ff7f
        named_color(seq![0x73u8, 0x70, 0x72, 0x69, 0x6e, 0x67, 0x67, 0x72, 0x65, 0x65, 0x6e]) == Some(Color { red: 0, green: 255, blue: 127, alpha: 255 }),
        // steelblue: #4682b4
        named_color(seq![0x73u8, 0x74, 0x65, 0x65, 0x6c, 0x62, 0x6c, 0x75, 0x65]) == Some(Color { red: 70, green: 130, blue: 180, alpha: 255 }),
        // tan: #d2b48c
        named_color(seq![0x74u8, 0x61, 0x6e]) == Some(Color { red: 210, green: 180, blue: 140, alpha: 255 }),
        // teal: #008080
        named_color(seq![0x74u8, 0x65, 0x61, 0x6c]) == Some(Color { red: 0, green: 128, blue: 128, alpha: 255 }),
        // thistle: #d8bfd8
        named_color(seq![0x74u8, 0x68, 0x69, 0x73, 0x74, 0x6c, 0x65]) == Some(Color { red: 216, green: 191, blue: 216, alpha: 255 }),
{
    reveal(named_color);
}

#[verifier::rlimit(50)]
proof fn lemma_named_colors_28()
    ensures
        // tomato: #ff6347
        named_color(seq![0x74u8, 0x6f, 0x6d, 0x61, 0x74, 0x6f]) == Some(Color { red: 255, green: 99, blue: 71, alpha: 255 }),
        // transparent: #00000000
        named_color(seq![0x74u8, 0x72, 0x61, 0x6e, 0x73, 0x70, 0x61, 0x72, 0x65, 0x6e, 0x74]) == Some(Color { red: 0, green: 0, blue: 0, alpha: 0 }),
        // turquoise: #40e0d0
        named_color(seq![0x74u8, 0x75, 0x72, 0x71, 0x75, 0x6f, 0x69, 0x73, 0x65]) == Some(Color { red: 64, green: 224, blue: 208, alpha: 255 }),
        // violet: #ee82ee
        named_color(seq![0x76u8, 0x69, 0x6f, 0x6c, 0x65, 0x74]) == Some(Color { red: 238, green: 130, blue: 238, alpha: 255 }),
        // wheat: #f5deb3
        named_color(seq![0x77u8, 0x68, 0x65, 0x61, 0x74]) == Some(Color { red: 245, green: 222, blue: 179, alpha: 255 }),
{
    reveal(named_color);
}

#[verifier::rlimit(50)]
proof fn lemma_named_colors_29()
    ensures
        // white: #ffffff
        named_color(seq![0x77u8, 0x68, 0x69, 0x74, 0x65]) == Some(Color { red: 255, green: 255, blue: 255, alpha: 255 }),
        // whitesmoke: #f5f5f5
        named_color(seq![0x77u8, 0x68, 0x69, 0x74, 0x65, 0x73, 0x6d, 0x6f, 0x6b, 0x65]) == Some(Color { red: 245, green: 245, blue: 245, alpha: 255 }),
        // yellow: #ffff00
        named_color(seq![0x79u8, 0x65, 0x6c, 0x6c, 0x6f, 0x77]) == Some(Color { red: 255, green: 255, blue: 0, alpha: 255 }),
        // yellowgreen: #9acd32
        named_color(seq![0x79u8, 0x65, 0x6c, 0x6c, 0x6f, 0x77, 0x67, 0x72, 0x65, 0x65, 0x6e]) == Some(Color { red: 154, green: 205, blue: 50, alpha: 255 }),
{
    reveal(named_color);
}

/// Every CSS color keyword names the color of the CSS color table
/// (sRGB, given here with its hex notation); `transparent` is transparent
/// black. Distinct entries of the table, such as `lime` (#00ff00) and
/// `green` (#008000), read as distinct colors.
pub proof fn lemma_named_color_table()
    ensures
        // aliceblue: #f0f8ff
        named_color(seq![0x61u8, 0x6c, 0x69, 0x63, 0x65, 0x62, 0x6c, 0x75, 0x65]) == Some(Color { red: 240, green: 248, blue: 255, alpha: 255 }),
        // antiquewhite: #faebd7
        named_color(seq![0x61u8, 0x6e, 0x74, 0x69, 0x71, 0x75, 0x65, 0x77, 0x68, 0x69, 0x74, 0x65]) == Some(Color { red: 250, green: 235, blue: 215, alpha: 255 }),
        // aqua: #00ffff
        named_color(seq![0x61u8, 0x71, 0x75, 0x61]) == Some(Color { red: 0, green: 255, blue: 255, alpha: 255 }),
        // aquamarine: #7fffd4
        named_color(seq![0x61u8, 0x71, 0x75, 0x61, 0x6d, 0x61, 0x72, 0x69, 0x6e, 0x65]) == Some(Color { red: 127, green: 255, blue: 212, alpha: 255 }),
        // azure: #f0ffff
        named_color(seq![0x61u8, 0x7a, 0x75, 0x72, 0x65]) == Some(Color { red: 240, green: 255, blue: 255, alpha: 255 }),
        // beige: #f5f5dc
        named_color(seq![0x62u8, 0x65, 0x69, 0x67, 0x65]) == Some(Color { red: 245, green: 245, blue: 220, alpha: 255 }),
        // bisque: #ffe4c4
        named_color(seq![0x62u8, 0x69, 0x73, 0x71, 0x75, 0x65]) == Some(Color { red: 255, green: 228, blue: 196, alpha: 255 }),
        // black: #000000
        named_color(seq![0x62u8, 0x6c, 0x61, 0x63, 0x6b]) == Some(Color { red: 0, green: 0, blue: 0, alpha: 255 }),
        // blanchedalmond: #ffebcd
        named_color(seq![0x62u8, 0x6c, 0x61, 0x6e, 0x63, 0x68, 0x65, 0x64, 0x61, 0x6c, 0x6d, 0x6f, 0x6e, 0x64]) == Some(Color { red: 255, green: 235, blue: 205, alpha: 255 }),
        // blue: #0000ff
        named_color(seq![0x62u8, 0x6c, 0x75, 0x65]) == Some(Color { red: 0, green: 0, blue: 255, alpha: 255 }),
        // blueviolet: #8a2be2
        named_color(seq![0x62u8, 0x6c, 0x75, 0x65, 0x76, 0x69, 0x6f, 0x6c, 0x65, 0x74]) == Some(Color { red: 138, green: 43, blue: 226, alpha: 255 }),
        // brown: #a52a2a
        named_color(seq![0x62u8, 0x72, 0x6f, 0x77, 0x6e]) == Some(Color { red: 165, green: 42, blue: 42, alpha: 255 }),
        // burlywood: #deb887
        named_color(seq![0x62u8, 0x75, 0x72, 0x6c, 0x79, 0x77, 0x6f, 0x6f, 0x64]) == Some(Color { red: 222, green: 184, blue: 135, alpha: 255 }),
        // cadetblue: #5f9ea0
        named_color(seq![0x63u8, 0x61, 0x64, 0x65, 0x74, 0x62, 0x6c, 0x75, 0x65]) == Some(Color { red: 95, green: 158, blue: 160, alpha: 255 }),
        // chartreuse: #7fff00
        named_color(seq![0x63u8, 0x68, 0x61, 0x72, 0x74, 0x72, 0x65, 0x75, 0x73, 0x65]) == Some(Color { red: 127, green: 255, blue: 0, alpha: 255 }),
        // chocolate: #d2691e
        named_color(seq![0x63u8, 0x68, 0x6f, 0x63, 0x6f, 0x6c, 0x61, 0x74, 0x65]) == Some(Color { red: 210, green: 105, blue: 30, alpha: 255 }),
        // coral: #ff7f50
        named_color(seq![0x63u8, 0x6f, 0x72, 0x61, 0x6c]) == Some(Color { red: 255, green: 127, blue: 80, alpha: 255 }),
        // cornflowerblue: #6495ed
        named_color(seq![0x63u8, 0x6f, 0x72, 0x6e, 0x66, 0x6c, 0x6f, 0x77, 0x65, 0x72, 0x62, 0x6c, 0x75, 0x65]) == Some(Color { red: 100, green: 149, blue: 237, alpha: 255 }),
        // cornsilk: #fff8dc
        named_color(seq![0x63u8, 0x6f, 0x72, 0x6e, 0x73, 0x69, 0x6c, 0x6b]) == Some(Color { red: 255, green: 248, blue: 220, alpha: 255 }),
        // crimson: #dc143c
        named_color(seq![0x63u8, 0x72, 0x69, 0x6d, 0x73, 0x6f, 0x6e]) == Some(Color { red: 220, green: 20, blue: 60, alpha: 255 }),
        // cyan: #00ffff
        named_color(seq![0x63u8, 0x79, 0x61, 0x6e]) == Some(Color { red: 0, green: 255, blue: 255, alpha: 255 }),
        // darkblue: #00008b
        named_color(seq![0x64u8, 0x61, 0x72, 0x6b, 0x62, 0x6c, 0x75, 0x65]) == Some(Color { red: 0, green: 0, blue: 139, alpha: 255 }),
        // darkcyan: #008b8b
        named_color(seq![0x64u8, 0x61, 0x72, 0x6b, 0x63, 0x79, 0x61, 0x6e]) == Some(Color { red: 0, green: 139, blue: 139, alpha: 255 }),
        // darkgoldenrod: #b8860b
        named_color(seq![0x64u8, 0x61, 0x72, 0x6b, 0x67, 0x6f, 0x6c, 0x64, 0x65, 0x6e, 0x72, 0x6f, 0x64]) == Some(Color { red: 184, green: 134, blue: 11, alpha: 255 }),
        // darkgray: #a9a9a9
        named_color(seq![0x64u8, 0x61, 0x72, 0x6b, 0x67, 0x72, 0x61, 0x79]) == Some(Color { red: 169, green: 169, blue: 169, alpha: 255 }),
        // darkgreen: #006400
        named_color(seq![0x64u8, 0x61, 0x72, 0x6b, 0x67, 0x72, 0x65, 0x65, 0x6e]) == Some(Color { red: 0, green: 100, blue: 0, alpha: 255 }),
        // darkgrey: #a9a9a9
        named_color(seq![0x64u8, 0x61, 0x72, 0x6b, 0x67, 0x72, 0x65, 0x79]) == Some(Color { red: 169, green: 169, blue: 169, alpha: 255 }),
        // darkkhaki: #bdb76b
        named_color(seq![0x64u8, 0x61, 0x72, 0x6b, 0x6b, 0x68, 0x61, 0x6b, 0x69]) == Some(Color { red: 189, green: 183, blue: 107, alpha: 255 }),
        // darkmagenta: #8b008b
        named_color(seq![0x64u8, 0x61, 0x72, 0x6b, 0x6d, 0x61, 0x67, 0x65, 0x6e, 0x74, 0x61]) == Some(Color { red: 139, green: 0, blue: 139, alpha: 255 }),
        // darkolivegreen: #556b2f
        named_color(seq![0x64u8, 0x61, 0x72, 0x6b, 0x6f, 0x6c, 0x69, 0x76, 0x65, 0x67, 0x72, 0x65, 0x65, 0x6e]) == Some(Color { red: 85, green: 107, blue: 47, alpha: 255 }),
        // darkorange: #ff8c00
        named_color(seq![0x64u8, 0x61, 0x72, 0x6b, 0x6f, 0x72, 0x61, 0x6e, 0x67, 0x65]) == Some(Color { red: 255, green: 140, blue: 0, alpha: 255 }),
        // darkorchid: #9932cc
        named_color(seq![0x64u8, 0x61, 0x72, 0x6b, 0x6f, 0x72, 0x63, 0x68, 0x69, 0x64]) == Some(Color { red: 153, green: 50, blue: 204, alpha: 255 }),
        // darkred: #8b0000
        named_color(seq![0x64u8, 0x61, 0x72, 0x6b, 0x72, 0x65, 0x64]) == Some(Color { red: 139, green: 0, blue: 0, alpha: 255 }),
        // darksalmon: #e9967a
        named_color(seq![0x64u8, 0x61, 0x72, 0x6b, 0x73, 0x61, 0x6c, 0x6d, 0x6f, 0x6e]) == Some(Color { red: 233, green: 150, blue: 122, alpha: 255 }),
        // darkseagreen: #8fbc8f
        named_color(seq![0x64u8, 0x61, 0x72, 0x6b, 0x73, 0x65, 0x61, 0x67, 0x72, 0x65, 0x65, 0x6e]) == Some(Color { red: 143, green: 188, blue: 143, alpha: 255 }),
        // darkslateblue: #483d8b
        named_color(seq![0x64u8, 0x61, 0x72, 0x6b, 0x73, 0x6c, 0x61, 0x74, 0x65, 0x62, 0x6c, 0x75, 0x65]) == Some(Color { red: 72, green: 61, blue: 139, alpha: 255 }),
        // darkslategray: #2f4f4f
        named_color(seq![0x64u8, 0x61, 0x72, 0x6b, 0x73, 0x6c, 0x61, 0x74, 0x65, 0x67, 0x72, 0x61, 0x79]) == Some(Color { red: 47, green: 79, blue: 79, alpha: 255 }),
        // darkslategrey: #2f4f4f
        named_color(seq![0x64u8, 0x61, 0x72, 0x6b, 0x73, 0x6c, 0x61, 0x74, 0x65, 0x67, 0x72, 0x65, 0x79]) == Some(Color { red: 47, green: 79, blue: 79, alpha: 255 }),
        // darkturquoise: #00ced1
        named_color(seq![0x64u8, 0x61, 0x72, 0x6b, 0x74, 0x75, 0x72, 0x71, 0x75, 0x6f, 0x69, 0x73, 0x65]) == Some(Color { red: 0, green: 206, blue: 209, alpha: 255 }),
        // darkviolet: #9400d3
        named_color(seq![0x64u8, 0x61, 0x72, 0x6b, 0x76, 0x69, 0x6f, 0x6c, 0x65, 0x74]) == Some(Color { red: 148, green: 0, blue: 211, alpha: 255 }),
        // deeppink: #ff1493
        named_color(seq![0x64u8, 0x65, 0x65, 0x70, 0x70, 0x69, 0x6e, 0x6b]) == Some(Color { red: 255, green: 20, blue: 147, alpha: 255 }),
        // deepskyblue: #00bfff
        named_color(seq![0x64u8, 0x65, 0x65, 0x70, 0x73, 0x6b, 0x79, 0x62, 0x6c, 0x75, 0x65]) == Some(Color { red: 0, green: 191, blue: 255, alpha: 255 }),
        // dimgray: #696969
        named_color(seq![0x64u8, 0x69, 0x6d, 0x67, 0x72, 0x61, 0x79]) == Some(Color { red: 105, green: 105, blue: 105, alpha: 255 }),
        // dimgrey: #696969
        named_color(seq![0x64u8, 0x69, 0x6d, 0x67, 0x72, 0x65, 0x79]) == Some(Color { red: 105, green: 105, blue: 105, alpha: 255 }),
        // dodgerblue: #1e90ff
        named_color(seq![0x64u8, 0x6f, 0x64, 0x67, 0x65, 0x72, 0x62, 0x6c, 0x75, 0x65]) == Some(Color { red: 30, green: 144, blue: 255, alpha: 255 }),
        // firebrick: #b22222
        named_color(seq![0x66u8, 0x69, 0x72, 0x65, 0x62, 0x72, 0x69, 0x63, 0x6b]) == Some(Color { red: 178, green: 34, blue: 34, alpha: 255 }),
        // floralwhite: #fffaf0
        named_color(seq![0x66u8, 0x6c, 0x6f, 0x72, 0x61, 0x6c, 0x77, 0x68, 0x69, 0x74, 0x65]) == Some(Color { red: 255, green: 250, blue: 240, alpha: 255 }),
        // forestgreen: #228b22
        named_color(seq![0x66u8, 0x6f, 0x72, 0x65, 0x73, 0x74, 0x67, 0x72, 0x65, 0x65, 0x6e]) == Some(Color { red: 34, green: 139, blue: 34, alpha: 255 }),
        // fuchsia: #ff00ff
        named_color(seq![0x66u8, 0x75, 0x63, 0x68, 0x73, 0x69, 0x61]) == Some(Color { red: 255, green: 0, blue: 255, alpha: 255 }),
        // gainsboro: #dcdcdc
        named_color(seq![0x67u8, 0x61, 0x69, 0x6e, 0x73, 0x62, 0x6f, 0x72, 0x6f]) == Some(Color { red: 220, green: 220, blue: 220, alpha: 255 }),
        // ghostwhite: #f8f8ff
        named_color(seq![0x67u8, 0x68, 0x6f, 0x73, 0x74, 0x77, 0x68, 0x69, 0x74, 0x65]) == Some(Color { red: 248, green: 248, blue: 255, alpha: 255 }),
        // gold: #ffd700
        named_color(seq![0x67u8, 0x6f, 0x6c, 0x64]) == Some(Color { red: 255, green: 215, blue: 0, alpha: 255 }),
        // goldenrod: #daa520
        named_color(seq![0x67u8, 0x6f, 0x6c, 0x64, 0x65, 0x6e, 0x72, 0x6f, 0x64]) == Some(Color { red: 218, green: 165, blue: 32, alpha: 255 }),
        // gray: #808080
        named_color(seq![0x67u8, 0x72, 0x61, 0x79]) == Some(Color { red: 128, green: 128, blue: 128, alpha: 255 }),
        // green: #008000
        named_color(seq![0x67u8, 0x72, 0x65, 0x65, 0x6e]) == Some(Color { red: 0, green: 128, blue: 0, alpha: 255 }),
        // greenyellow: #adff2f
        named_color(seq![0x67u8, 0x72, 0x65, 0x65, 0x6e, 0x79, 0x65, 0x6c, 0x6c, 0x6f, 0x77]) == Some(Color { red: 173, green: 255, blue: 47, alpha: 255 }),
        // grey: #808080
        named_color(seq![0x67u8, 0x72, 0x65, 0x79]) == Some(Color { red: 128, green: 128, blue: 128, alpha: 255 }),
        // honeydew: #f0fff0
        named_color(seq![0x68u8, 0x6f, 0x6e, 0x65, 0x79, 0x64, 0x65, 0x77]) == Some(Color { red: 240, green: 255, blue: 240, alpha: 255 }),
        // hotpink: #ff69b4
        named_color(seq![0x68u8, 0x6f, 0x74, 0x70, 0x69, 0x6e, 0x6b]) == Some(Color { red: 255, green: 105, blue: 180, alpha: 255 }),
        // indianred: #cd5c5c
        named_color(seq![0x69u8, 0x6e, 0x64, 0x69, 0x61, 0x6e, 0x72, 0x65, 0x64]) == Some(Color { red: 205, green: 92, blue: 92, alpha: 255 }),
        // indigo: #4b0082
        named_color(seq![0x69u8, 0x6e, 0x64, 0x69, 0x67, 0x6f]) == Some(Color { red: 75, green: 0, blue: 130, alpha: 255 }),
        // ivory: #fffff0
        named_color(seq![0x69u8, 0x76, 0x6f, 0x72, 0x79]) == Some(Color { red: 255, green: 255, blue: 240, alpha: 255 }),
        // khaki: #f0e68c
        named_color(seq![0x6bu8, 0x68, 0x61, 0x6b, 0x69]) == Some(Color { red: 240, green: 230, blue: 140, alpha: 255 }),
        // lavender: #e6e6fa
        named_color(seq![0x6cu8, 0x61, 0x76, 0x65, 0x6e, 0x64, 0x65, 0x72]) == Some(Color { red: 230, green: 230, blue: 250, alpha: 255 }),
        // lavenderblush: #fff0f5
        named_color(seq![0x6cu8, 0x61, 0x76, 0x65, 0x6e, 0x64, 0x65, 0x72, 0x62, 0x6c, 0x75, 0x73, 0x68]) == Some(Color { red: 255, green: 240, blue: 245, alpha: 255 }),
        // lawngreen: #7cfc00
        named_color(seq![0x6cu8, 0x61, 0x77, 0x6e, 0x67, 0x72, 0x65, 0x65, 0x6e]) == Some(Color { red: 124, green: 252, blue: 0, alpha: 255 }),
        // lemonchiffon: #fffacd
        named_color(seq![0x6cu8, 0x65, 0x6d, 0x6f, 0x6e, 0x63, 0x68, 0x69, 0x66, 0x66, 0x6f, 0x6e]) == Some(Color { red: 255, green: 250, blue: 205, alpha: 255 }),
        // lightblue: #add8e6
        named_color(seq![0x6cu8, 0x69, 0x67, 0x68, 0x74, 0x62, 0x6c, 0x75, 0x65]) == Some(Color { red: 173, green: 216, blue: 230, alpha: 255 }),
        // lightcoral: #f08080
        named_color(seq![0x6cu8, 0x69, 0x67, 0x68, 0x74, 0x63, 0x6f, 0x72, 0x61, 0x6c]) == Some(Color { red: 240, green: 128, blue: 128, alpha: 255 }),
        // lightcyan: #e0ffff
        named_color(seq![0x6cu8, 0x69, 0x67, 0x68, 0x74, 0x63, 0x79, 0x61, 0x6e]) == Some(Color { red: 224, green: 255, blue: 255, alpha: 255 }),
        // lightgoldenrodyellow: #fafad2
        named_color(seq![0x6cu8, 0x69, 0x67, 0x68, 0x74, 0x67, 0x6f, 0x6c, 0x64, 0x65, 0x6e, 0x72, 0x6f, 0x64, 0x79, 0x65, 0x6c, 0x6c, 0x6f, 0x77]) == Some(Color { red: 250, green: 250, blue: 210, alpha: 255 }),
        // lightgray: #d3d3d3
        named_color(seq![0x6cu8, 0x69, 0x67, 0x68, 0x74, 0x67, 0x72, 0x61, 0x79]) == Some(Color { red: 211, green: 211, blue: 211, alpha: 255 }),
        // lightgreen: #90ee90
        named_color(seq![0x6cu8, 0x69, 0x67, 0x68, 0x74, 0x67, 0x72, 0x65, 0x65, 0x6e]) == Some(Color { red: 144, green: 238, blue: 144, alpha: 255 }),
        // lightgrey: #d3d3d3
        named_color(seq![0x6cu8, 0x69, 0x67, 0x68, 0x74, 0x67, 0x72, 0x65, 0x79]) == Some(Color { red: 211, green: 211, blue: 211, alpha: 255 }),
        // lightpink: #ffb6c1
        named_color(seq![0x6cu8, 0x69, 0x67, 0x68, 0x74, 0x70, 0x69, 0x6e, 0x6b]) == Some(Color { red: 255, green: 182, blue: 193, alpha: 255 }),
        // lightsalmon: #ffa07a
        named_color(seq![0x6cu8, 0x69, 0x67, 0x68, 0x74, 0x73, 0x61, 0x6c, 0x6d, 0x6f, 0x6e]) == Some(Color { red: 255, green: 160, blue: 122, alpha: 255 }),
        // lightseagreen: #20b2aa
        named_color(seq![0x6cu8, 0x69, 0x67, 0x68, 0x74, 0x73, 0x65, 0x61, 0x67, 0x72, 0x65, 0x65, 0x6e]) == Some(Color { red: 32, green: 178, blue: 170, alpha: 255 }),
        // lightskyblue: #87cefa
        named_color(seq![0x6cu8, 0x69, 0x67, 0x68, 0x74, 0x73, 0x6b, 0x79, 0x62, 0x6c, 0x75, 0x65]) == Some(Color { red: 135, green: 206, blue: 250, alpha: 255 }),
        // lightslategray: #778899
        named_color(seq![0x6cu8, 0x69, 0x67, 0x68, 0x74, 0x73, 0x6c, 0x61, 0x74, 0x65, 0x67, 0x72, 0x61, 0x79]) == Some(Color { red: 119, green: 136, blue: 153, alpha: 255 }),
        // lightslategrey: #778899
        named_color(seq![0x6cu8, 0x69, 0x67, 0x68, 0x74, 0x73, 0x6c, 0x61, 0x74, 0x65, 0x67, 0x72, 0x65, 0x79]) == Some(Color { red: 119, green: 136, blue: 153, alpha: 255 }),
        // lightsteelblue: #b0c4de
        named_color(seq![0x6cu8, 0x69, 0x67, 0x68, 0x74, 0x73, 0x74, 0x65, 0x65, 0x6c, 0x62, 0x6c, 0x75, 0x65]) == Some(Color { red: 176, green: 196, blue: 222, alpha: 255 }),
        // lightyellow: #ffffe0
        named_color(seq![0x6cu8, 0x69, 0x67, 0x68, 0x74, 0x79, 0x65, 0x6c, 0x6c, 0x6f, 0x77]) == Some(Color { red: 255, green: 255, blue: 224, alpha: 255 }),
        // lime: #00ff00
        named_color(seq![0x6cu8, 0x69, 0x6d, 0x65]) == Some(Color { red: 0, green: 255, blue: 0, alpha: 255 }),
        // limegreen: #32cd32
        named_color(seq![0x6cu8, 0x69, 0x6d, 0x65, 0x67, 0x72, 0x65, 0x65, 0x6e]) == Some(Color { red: 50, green: 205, blue: 50, alpha: 255 }),
        // linen: #faf0e6
        named_color(seq![0x6cu8, 0x69, 0x6e, 0x65, 0x6e]) == Some(Color { red: 250, green: 240, blue: 230, alpha: 255 }),
        // magenta: #ff00ff
        named_color(seq![0x6du8, 0x61, 0x67, 0x65, 0x6e, 0x74, 0x61]) == Some(Color { red: 255, green: 0, blue: 255, alpha: 255 }),
        // maroon: #800000
        named_color(seq![0x6du8, 0x61, 0x72, 0x6f, 0x6f, 0x6e]) == Some(Color { red: 128, green: 0, blue: 0, alpha: 255 }),
        // mediumaquamarine: #66cdaa
        named_color(seq![0x6du8, 0x65, 0x64, 0x69, 0x75, 0x6d, 0x61, 0x71, 0x75, 0x61, 0x6d, 0x61, 0x72, 0x69, 0x6e, 0x65]) == Some(Color { red: 102, green: 205, blue: 170, alpha: 255 }),
        // mediumblue: #0000cd
        named_color(seq![0x6du8, 0x65, 0x64, 0x69, 0x75, 0x6d, 0x62, 0x6c, 0x75, 0x65]) == Some(Color { red: 0, green: 0, blue: 205, alpha: 255 }),
        // mediumorchid: #ba55d3
        named_color(seq![0x6du8, 0x65, 0x64, 0x69, 0x75, 0x6d, 0x6f, 0x72, 0x63, 0x68, 0x69, 0x64]) == Some(Color { red: 186, green: 85, blue: 211, alpha: 255 }),
        // mediumpurple: #9370db
        named_color(seq![0x6du8, 0x65, 0x64, 0x69, 0x75, 0x6d, 0x70, 0x75, 0x72, 0x70, 0x6c, 0x65]) == Some(Color { red: 147, green: 112, blue: 219, alpha: 255 }),
        // mediumseagreen: #3cb371
        named_color(seq![0x6du8, 0x65, 0x64, 0x69, 0x75, 0x6d, 0x73, 0x65, 0x61, 0x67, 0x72, 0x65, 0x65, 0x6e]) == Some(Color { red: 60, green: 179, blue: 113, alpha: 255 }),
        // mediumslateblue: #7b68ee
        named_color(seq![0x6du8, 0x65, 0x64, 0x69, 0x75, 0x6d, 0x73, 0x6c, 0x61, 0x74, 0x65, 0x62, 0x6c, 0x75, 0x65]) == Some(Color { red: 123, green: 104, blue: 238, alpha: 255 }),
        // mediumspringgreen: #00fa9a
        named_color(seq![0x6du8, 0x65, 0x64, 0x69, 0x75, 0x6d, 0x73, 0x70, 0x72, 0x69, 0x6e, 0x67, 0x67, 0x72, 0x65, 0x65, 0x6e]) == Some(Color { red: 0, green: 250, blue: 154, alpha: 255 }),
        // mediumturquoise: #48d1cc
        named_color(seq![0x6du8, 0x65, 0x64, 0x69, 0x75, 0x6d, 0x74, 0x75, 0x72, 0x71, 0x75, 0x6f, 0x69, 0x73, 0x65]) == Some(Color { red: 72, green: 209, blue: 204, alpha: 255 }),
        // mediumvioletred: #c71585
        named_color(seq![0x6du8, 0x65, 0x64, 0x69, 0x75, 0x6d, 0x76, 0x69, 0x6f, 0x6c, 0x65, 0x74, 0x72, 0x65, 0x64]) == Some(Color { red: 199, green: 21, blue: 133, alpha: 255 }),
        // midnightblue: #191970
        named_color(seq![0x6du8, 0x69, 0x64, 0x6e, 0x69, 0x67, 0x68, 0x74, 0x62, 0x6c, 0x75, 0x65]) == Some(Color { red: 25, green: 25, blue: 112, alpha: 255 }),
        // mintcream: #f5fffa
        named_color(seq![0x6du8, 0x69, 0x6e, 0x74, 0x63, 0x72, 0x65, 0x61, 0x6d]) == Some(Color { red: 245, green: 255, blue: 250, alpha: 255 }),
        // mistyrose: #ffe4e1
        named_color(seq![0x6du8, 0x69, 0x73, 0x74, 0x79, 0x72, 0x6f, 0x73, 0x65]) == Some(Color { red: 255, green: 228, blue: 225, alpha: 255 }),
        // moccasin: #ffe4b5
        named_color(seq![0x6du8, 0x6f, 0x63, 0x63, 0x61, 0x73, 0x69, 0x6e]) == Some(Color { red: 255, green: 228, blue: 181, alpha: 255 }),
        // navajowhite: #ffdead
        named_color(seq![0x6eu8, 0x61, 0x76, 0x61, 0x6a, 0x6f, 0x77, 0x68, 0x69, 0x74, 0x65]) == Some(Color { red: 255, green: 222, blue: 173, alpha: 255 }),
        // navy: #000080
        named_color(seq![0x6eu8, 0x61, 0x76, 0x79]) == Some(Color { red: 0, green: 0, blue: 128, alpha: 255 }),
        // oldlace: #fdf5e6
        named_color(seq![0x6fu8, 0x6c, 0x64, 0x6c, 0x61, 0x63, 0x65]) == Some(Color { red: 253, green: 245, blue: 230, alpha: 255 }),
        // olive: #808000
        named_color(seq![0x6fu8, 0x6c, 0x69, 0x76, 0x65]) == Some(Color { red: 128, green: 128, blue: 0, alpha: 255 }),
        // olivedrab: #6b8e23
        named_color(seq![0x6fu8, 0x6c, 0x69, 0x76, 0x65, 0x64, 0x72, 0x61, 0x62]) == Some(Color { red: 107, green: 142, blue: 35, alpha: 255 }),
        // orange: #ffa500
        named_color(seq![0x6fu8, 0x72, 0x61, 0x6e, 0x67, 0x65]) == Some(Color { red: 255, green: 165, blue: 0, alpha: 255 }),
        // orangered: #ff4500
        named_color(seq![0x6fu8, 0x72, 0x61, 0x6e, 0x67, 0x65, 0x72, 0x65, 0x64]) == Some(Color { red: 255, green: 69, blue: 0, alpha: 255 }),
        // orchid: #da70d6
        named_color(seq![0x6fu8, 0x72, 0x63, 0x68, 0x69, 0x64]) == Some(Color { red: 218, green: 112, blue: 214, alpha: 255 }),
        // palegoldenrod: #eee8aa
        named_color(seq![0x70u8, 0x61, 0x6c, 0x65, 0x67, 0x6f, 0x6c, 0x64, 0x65, 0x6e, 0x72, 0x6f, 0x64]) == Some(Color { red: 238, green: 232, blue: 170, alpha: 255 }),
        // palegreen: #98fb98
        named_color(seq![0x70u8, 0x61, 0x6c, 0x65, 0x67, 0x72, 0x65, 0x65, 0x6e]) == Some(Color { red: 152, green: 251, blue: 152, alpha: 255 }),
        // paleturquoise: #afeeee
        named_color(seq![0x70u8, 0x61, 0x6c, 0x65, 0x74, 0x75, 0x72, 0x71, 0x75, 0x6f, 0x69, 0x73, 0x65]) == Some(Color { red: 175, green: 238, blue: 238, alpha: 255 }),
        // palevioletred: #db7093
        named_color(seq![0x70u8, 0x61, 0x6c, 0x65, 0x76, 0x69, 0x6f, 0x6c, 0x65, 0x74, 0x72, 0x65, 0x64]) == Some(Color { red: 219, green: 112, blue: 147, alpha: 255 }),
        // papayawhip: #ffefd5
        named_color(seq![0x70u8, 0x61, 0x70, 0x61, 0x79, 0x61, 0x77, 0x68, 0x69, 0x70]) == Some(Color { red: 255, green: 239, blue: 213, alpha: 255 }),
        // peachpuff: #ffdab9
        named_color(seq![0x70u8, 0x65, 0x61, 0x63, 0x68, 0x70, 0x75, 0x66, 0x66]) == Some(Color { red: 255, green: 218, blue: 185, alpha: 255 }),
        // peru: #cd853f
        named_color(seq![0x70u8, 0x65, 0x72, 0x75]) == Some(Color { red: 205, green: 133, blue: 63, alpha: 255 }),
        // pink: #ffc0cb
        named_color(seq![0x70u8, 0x69, 0x6e, 0x6b]) == Some(Color { red: 255, green: 192, blue: 203, alpha: 255 }),
        // plum: #dda0dd
        named_color(seq![0x70u8, 0x6c, 0x75, 0x6d]) == Some(Color { red: 221, green: 160, blue: 221, alpha: 255 }),
        // powderblue: #b0e0e6
        named_color(seq![0x70u8, 0x6f, 0x77, 0x64, 0x65, 0x72, 0x62, 0x6c, 0x75, 0x65]) == Some(Color { red: 176, green: 224, blue: 230, alpha: 255 }),
        // purple: #800080
        named_color(seq![0x70u8, 0x75, 0x72, 0x70, 0x6c, 0x65]) == Some(Color { red: 128, green: 0, blue: 128, alpha: 255 }),
        // rebeccapurple: #663399
        named_color(seq![0x72u8, 0x65, 0x62, 0x65, 0x63, 0x63, 0x61, 0x70, 0x75, 0x72, 0x70, 0x6c, 0x65]) == Some(Color { red: 102, green: 51, blue: 153, alpha: 255 }),
        // red: #ff0000
        named_color(seq![0x72u8, 0x65, 0x64]) == Some(Color { red: 255, green: 0, blue: 0, alpha: 255 }),
        // rosybrown: #bc8f8f
        named_color(seq![0x72u8, 0x6f, 0x73, 0x79, 0x62, 0x72, 0x6f, 0x77, 0x6e]) == Some(Color { red: 188, green: 143, blue: 143, alpha: 255 }),
        // royalblue: #4169e1
        named_color(seq![0x72u8, 0x6f, 0x79, 0x61, 0x6c, 0x62, 0x6c, 0x75, 0x65]) == Some(Color { red: 65, green: 105, blue: 225, alpha: 255 }),
        // saddlebrown: #8b4513
        named_color(seq![0x73u8, 0x61, 0x64, 0x64, 0x6c, 0x65, 0x62, 0x72, 0x6f, 0x77, 0x6e]) == Some(Color { red: 139, green: 69, blue: 19, alpha: 255 }),
        // salmon: #fa8072
        named_color(seq![0x73u8, 0x61, 0x6c, 0x6d, 0x6f, 0x6e]) == Some(Color { red: 250, green: 128, blue: 114, alpha: 255 }),
        // sandybrown: #f4a460
        named_color(seq![0x73u8, 0x61, 0x6e, 0x64, 0x79, 0x62, 0x72, 0x6f, 0x77, 0x6e]) == Some(Color { red: 244, green: 164, blue: 96, alpha: 255 }),
        // seagreen: #2e8b57
        named_color(seq![0x73u8, 0x65, 0x61, 0x67, 0x72, 0x65, 0x65, 0x6e]) == Some(Color { red: 46, green: 139, blue: 87, alpha: 255 }),
        // seashell: #fff5ee
        named_color(seq![0x73u8, 0x65, 0x61, 0x73, 0x68, 0x65, 0x6c, 0x6c]) == Some(Color { red: 255, green: 245, blue: 238, alpha: 255 }),
        // sienna: #a0522d
        named_color(seq![0x73u8, 0x69, 0x65, 0x6e, 0x6e, 0x61]) == Some(Color { red: 160, green: 82, blue: 45, alpha: 255 }),
        // silver: #c0c0c0
        named_color(seq![0x73u8, 0x69, 0x6c, 0x76, 0x65, 0x72]) == Some(Color { red: 192, green: 192, blue: 192, alpha: 255 }),
        // skyblue: #87ceeb
        named_color(seq![0x73u8, 0x6b, 0x79, 0x62, 0x6c, 0x75, 0x65]) == Some(Color { red: 135, green: 206, blue: 235, alpha: 255 }),
        // slateblue: #6a5acd
        named_color(seq![0x73u8, 0x6c, 0x61, 0x74, 0x65, 0x62, 0x6c, 0x75, 0x65]) == Some(Color { red: 106, green: 90, blue: 205, alpha: 255 }),
        // slategray: #708090
        named_color(seq![0x73u8, 0x6c, 0x61, 0x74, 0x65, 0x67, 0x72, 0x61, 0x79]) == Some(Color { red: 112, green: 128, blue: 144, alpha: 255 }),
        // slategrey: #708090
        named_color(seq![0x73u8, 0x6c, 0x61, 0x74, 0x65, 0x67, 0x72, 0x65, 0x79]) == Some(Color { red: 112, green: 128, blue: 144, alpha: 255 }),
        // snow: #fffafa
        named_color(seq![0x73u8, 0x6e, 0x6f, 0x77]) == Some(Color { red: 255, green: 250, blue: 250, alpha: 255 }),
        // springgreen: #00ff7f
        named_color(seq![0x73u8, 0x70, 0x72, 0x69, 0x6e, 0x67, 0x67, 0x72, 0x65, 0x65, 0x6e]) == Some(Color { red: 0, green: 255, blue: 127, alpha: 255 }),
        // steelblue: #4682b4
        named_color(seq![0x73u8, 0x74, 0x65, 0x65, 0x6c, 0x62, 0x6c, 0x75, 0x65]) == Some(Color { red: 70, green: 130, blue: 180, alpha: 255 }),
        // tan: #d2b48c
        named_color(seq![0x74u8, 0x61, 0x6e]) == Some(Color { red: 210, green: 180, blue: 140, alpha: 255 }),
        // teal: #008080
        named_color(seq![0x74u8, 0x65, 0x61, 0x6c]) == Some(Color { red: 0, green: 128, blue: 128, alpha: 255 }),
        // thistle: #d8bfd8
        named_color(seq![0x74u8, 0x68, 0x69, 0x73, 0x74, 0x6c, 0x65]) == Some(Color { red: 216, green: 191, blue: 216, alpha: 255 }),
        // tomato: #ff6347
        named_color(seq![0x74u8, 0x6f, 0x6d, 0x61, 0x74, 0x6f]) == Some(Color { red: 255, green: 99, blue: 71, alpha: 255 }),
        // transparent: #00000000
        named_color(seq![0x74u8, 0x72, 0x61, 0x6e, 0x73, 0x70, 0x61, 0x72, 0x65, 0x6e, 0x74]) == Some(Color { red: 0, green: 0, blue: 0, alpha: 0 }),
        // turquoise: #40e0d0
        named_color(seq![0x74u8, 0x75, 0x72, 0x71, 0x75, 0x6f, 0x69, 0x73, 0x65]) == Some(Color { red: 64, green: 224, blue: 208, alpha: 255 }),
        // violet: #ee82ee
        named_color(seq![0x76u8, 0x69, 0x6f, 0x6c, 0x65, 0x74]) == Some(Color { red: 238, green: 130, blue: 238, alpha: 255 }),
        // wheat: #f5deb3
        named_color(seq![0x77u8, 0x68, 0x65, 0x61, 0x74]) == Some(Color { red: 245, green: 222, blue: 179, alpha: 255 }),
        // white: #ffffff
        named_color(seq![0x77u8, 0x68, 0x69, 0x74, 0x65]) == Some(Color { red: 255, green: 255, blue: 255, alpha: 255 }),
        // whitesmoke: #f5f5f5
        named_color(seq![0x77u8, 0x68, 0x69, 0x74, 0x65, 0x73, 0x6d, 0x6f, 0x6b, 0x65]) == Some(Color { red: 245, green: 245, blue: 245, alpha: 255 }),
        // yellow: #ffff00
        named_color(seq![0x79u8, 0x65, 0x6c, 0x6c, 0x6f, 0x77]) == Some(Color { red: 255, green: 255, blue: 0, alpha: 255 }),
        // yellowgreen: #9acd32
        named_color(seq![0x79u8, 0x65, 0x6c, 0x6c, 0x6f, 0x77, 0x67, 0x72, 0x65, 0x65, 0x6e]) == Some(Color { red: 154, green: 205, blue: 50, alpha: 255 }),
{
    lemma_named_colors_0();
    lemma_named_colors_1();
    lemma_named_colors_2();
    lemma_named_colors_3();
    lemma_named_colors_4();
    lemma_named_colors_5();
    lemma_named_colors_6();
    lemma_named_colors_7();
    lemma_named_colors_8();
    lemma_named_colors_9();
    lemma_named_colors_10();
    lemma_named_colors_11();
    lemma_named_colors_12();
    lemma_named_colors_13();
    lemma_named_colors_14();
    lemma_named_colors_15();
    lemma_named_colors_16();
    lemma_named_colors_17();
    lemma_named_colors_18();
    lemma_named_colors_19();
    lemma_named_colors_20();
    lemma_named_colors_21();
    lemma_named_colors_22();
    lemma_named_colors_23();
    lemma_named_colors_24();
    lemma_named_colors_25();
    lemma_named_colors_26();
    lemma_named_colors_27();
    lemma_named_colors_28();
    lemma_named_colors_29();
}

} // verus!
