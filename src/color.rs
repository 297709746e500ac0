use vstd::prelude::*;

verus! {

/// A 24-bit color.
#[derive(Clone, Copy, Debug, PartialEq, Eq, Structural)]
pub struct Rgb {
    pub r: u8,
    pub g: u8,
    pub b: u8,
}

/// The color attribute of a cell: the terminal's default, an entry of the
/// 256-color palette, or a direct color.
#[derive(Clone, Copy, Debug, PartialEq, Eq, Structural)]
pub enum Color {
    Default,
    Indexed(u8),
    Rgb(Rgb),
}

pub open spec fn rgb(r: u8, g: u8, b: u8) -> Rgb {
    Rgb { r, g, b }
}

/// The initial default foreground: white.
pub fn default_fg() -> (c: Rgb)
    ensures
        c == rgb(255, 255, 255),
{
    Rgb { r: 255, g: 255, b: 255 }
}

/// The initial default background: black.
pub fn default_bg() -> (c: Rgb)
    ensures
        c == rgb(0, 0, 0),
{
    Rgb { r: 0, g: 0, b: 0 }
}

/// The sixteen ANSI colors of the xterm palette.
pub open spec fn ansi_16(index: u8) -> Rgb {
    if index == 0 {
        rgb(0, 0, 0)
    } else if index == 1 {
        rgb(128, 0, 0)
    } else if index == 2 {
        rgb(0, 128, 0)
    } else if index == 3 {
        rgb(128, 128, 0)
    } else if index == 4 {
        rgb(0, 0, 128)
    } else if index == 5 {
        rgb(128, 0, 128)
    } else if index == 6 {
        rgb(0, 128, 128)
    } else if index == 7 {
        rgb(192, 192, 192)
    } else if index == 8 {
        rgb(128, 128, 128)
    } else if index == 9 {
        rgb(255, 0, 0)
    } else if index == 10 {
        rgb(0, 255, 0)
    } else if index == 11 {
        rgb(255, 255, 0)
    } else if index == 12 {
        rgb(0, 0, 255)
    } else if index == 13 {
        rgb(255, 0, 255)
    } else if index == 14 {
        rgb(0, 255, 255)
    } else {
        rgb(255, 255, 255)
    }
}

/// Intensity of step `n` (0..6) of the xterm 6x6x6 color cube.
pub open spec fn cube_level(n: int) -> u8 {
    if n == 0 {
        0
    } else if n == 1 {
        95
    } else if n == 2 {
        135
    } else if n == 3 {
        175
    } else if n == 4 {
        215
    } else {
        255
    }
}

/// The built-in xterm 256-color table: 16 ANSI colors, a 6x6x6 cube and a
/// 24-step gray ramp.
pub open spec fn xterm_256(index: u8) -> Rgb {
    if index < 16 {
        ansi_16(index)
    } else if index < 232 {
        let i = index - 16;
        rgb(cube_level(i / 36), cube_level((i / 6) % 6), cube_level(i % 6))
    } else {
        let gray = (8 + (index - 232) * 10) as u8;
        rgb(gray, gray, gray)
    }
}

pub fn ansi_16_color(index: u8) -> (r: Rgb)
    ensures
        r == ansi_16(index),
{
    match index {
        0 => Rgb { r: 0, g: 0, b: 0 },
        1 => Rgb { r: 128, g: 0, b: 0 },
        2 => Rgb { r: 0, g: 128, b: 0 },
        3 => Rgb { r: 128, g: 128, b: 0 },
        4 => Rgb { r: 0, g: 0, b: 128 },
        5 => Rgb { r: 128, g: 0, b: 128 },
        6 => Rgb { r: 0, g: 128, b: 128 },
        7 => Rgb { r: 192, g: 192, b: 192 },
        8 => Rgb { r: 128, g: 128, b: 128 },
        9 => Rgb { r: 255, g: 0, b: 0 },
        10 => Rgb { r: 0, g: 255, b: 0 },
        11 => Rgb { r: 255, g: 255, b: 0 },
        12 => Rgb { r: 0, g: 0, b: 255 },
        13 => Rgb { r: 255, g: 0, b: 255 },
        14 => Rgb { r: 0, g: 255, b: 255 },
        _ => Rgb { r: 255, g: 255, b: 255 },
    }
}

fn cube_step(n: u8) -> (r: u8)
    requires
        n < 6,
    ensures
        r == cube_level(n as int),
{
    match n {
        0 => 0,
        1 => 95,
        2 => 135,
        3 => 175,
        4 => 215,
        _ => 255,
    }
}

pub fn xterm_256_color(index: u8) -> (r: Rgb)
    ensures
        r == xterm_256(index),
{
    if index < 16 {
        return ansi_16_color(index);
    }
    if index < 232 {
        let idx = index - 16;
        let r = idx / 36;
        let g = (idx / 6) % 6;
        let b = idx % 6;
        return Rgb { r: cube_step(r), g: cube_step(g), b: cube_step(b) };
    }
    let gray: u8 = 8 + (index - 232) * 10;
    Rgb { r: gray, g: gray, b: gray }
}

// ---------------------------------------------------------------------------
// Decimal numbers in OSC parameters
// ---------------------------------------------------------------------------

pub open spec fn is_digit(b: u8) -> bool {
    0x30 <= b <= 0x39
}

pub open spec fn all_digits(s: Seq<u8>) -> bool {
    forall|i: int| 0 <= i < s.len() ==> is_digit(#[trigger] s[i])
}

/// The value of a string of decimal digits.
pub open spec fn dec_value(s: Seq<u8>) -> nat
    decreases s.len(),
{
    if s.len() == 0 {
        0
    } else {
        dec_value(s.drop_last()) * 10 + (s.last() - 0x30) as nat
    }
}

/// A decimal number of at most 65535: one or more ASCII digits, nothing else.
pub open spec fn decimal_of(s: Seq<u8>) -> Option<u16> {
    if s.len() > 0 && all_digits(s) && dec_value(s) <= 0xffff {
        Some(dec_value(s) as u16)
    } else {
        None
    }
}

pub open spec fn min_nat(a: nat, b: nat) -> nat {
    if a < b {
        a
    } else {
        b
    }
}

/// Reads a decimal number of at most 65535 from `s`.
pub fn parse_decimal(s: &[u8]) -> (r: Option<u16>)
    ensures
        r == decimal_of(s@),
{
    if s.len() == 0 {
        return None;
    }
    let mut val: u32 = 0;
    let mut i: usize = 0;
    while i < s.len()
        invariant
            i <= s@.len(),
            all_digits(s@.take(i as int)),
            val as nat == min_nat(dec_value(s@.take(i as int)), 0x10000),
        decreases s@.len() - i,
    {
        let b = s[i];
        if b < 0x30 || b > 0x39 {
            assert(!all_digits(s@));
            return None;
        }
        proof {
            assert(s@.take(i as int + 1).drop_last() =~= s@.take(i as int));
        }
        let next: u32 = val * 10 + (b - 0x30) as u32;
        val = if next > 0x10000 { 0x10000 } else { next };
        i = i + 1;
        assert(all_digits(s@.take(i as int))) by {
            assert forall|k: int| 0 <= k < i implies is_digit(#[trigger] s@.take(i as int)[k]) by {
                if k < i - 1 {
                    assert(s@.take(i as int)[k] == s@.take(i as int - 1)[k]);
                }
            }
        }
    }
    assert(s@.take(i as int) =~= s@);
    if val > 0xffff {
        None
    } else {
        Some(val as u16)
    }
}

// ---------------------------------------------------------------------------
// Color specifications of OSC 4, 10, 11 and 12
// ---------------------------------------------------------------------------

pub open spec fn is_hex(b: u8) -> bool {
    (0x30 <= b <= 0x39) || (0x41 <= b <= 0x46) || (0x61 <= b <= 0x66)
}

pub open spec fn hex_digit(b: u8) -> nat {
    if 0x30 <= b <= 0x39 {
        (b - 0x30) as nat
    } else if 0x41 <= b <= 0x46 {
        (b - 0x41 + 10) as nat
    } else {
        (b - 0x61 + 10) as nat
    }
}

pub open spec fn hex_value(s: Seq<u8>) -> nat
    decreases s.len(),
{
    if s.len() == 0 {
        0
    } else {
        hex_value(s.drop_last()) * 16 + hex_digit(s.last())
    }
}

/// The largest value of `n` hex digits.
pub open spec fn hex_max(n: nat) -> nat {
    if n == 1 {
        15
    } else if n == 2 {
        255
    } else if n == 3 {
        4095
    } else {
        65535
    }
}

/// One color component of one to four hex digits, scaled to eight bits.
pub open spec fn component_of(s: Seq<u8>) -> Option<u8> {
    if 1 <= s.len() <= 4 && (forall|i: int| 0 <= i < s.len() ==> is_hex(#[trigger] s[i])) {
        Some((hex_value(s) * 255 / hex_max(s.len())) as u8)
    } else {
        None
    }
}

pub open spec fn rgb_of(a: Option<u8>, b: Option<u8>, c: Option<u8>) -> Option<Rgb> {
    if a is Some && b is Some && c is Some {
        Some(rgb(a->0, b->0, c->0))
    } else {
        None
    }
}

/// Index of the first `b` in `s` at or after `from`, or `s.len()`.
pub open spec fn find_byte(s: Seq<u8>, b: u8, from: int) -> int
    decreases s.len() - from,
{
    if from >= s.len() {
        s.len() as int
    } else if s[from] == b {
        from
    } else {
        find_byte(s, b, from + 1)
    }
}

pub open spec fn is_rgb_prefix(s: Seq<u8>) -> bool {
    s.len() >= 4 && s[0] == 0x72 && s[1] == 0x67 && s[2] == 0x62 && s[3] == 0x3a
}

/// `rgb:R/G/B`, each component one to four hex digits.
pub open spec fn rgb_spec_of(s: Seq<u8>) -> Option<Rgb> {
    let i = find_byte(s, 0x2f, 4);
    let j = find_byte(s, 0x2f, i + 1);
    if j < s.len() {
        rgb_of(
            component_of(s.subrange(4, i)),
            component_of(s.subrange(i + 1, j)),
            component_of(s.subrange(j + 1, s.len() as int)),
        )
    } else {
        None
    }
}

/// `#RGB`, `#RRGGBB`, `#RRRGGGBBB` or `#RRRRGGGGBBBB`.
pub open spec fn hash_spec_of(s: Seq<u8>) -> Option<Rgb> {
    let n = (s.len() - 1) / 3;
    if (s.len() - 1) % 3 == 0 && 1 <= n <= 4 {
        rgb_of(
            component_of(s.subrange(1, 1 + n)),
            component_of(s.subrange(1 + n, 1 + 2 * n)),
            component_of(s.subrange(1 + 2 * n, 1 + 3 * n)),
        )
    } else {
        None
    }
}

/// The color that an X11-style color specification names, if any.
pub open spec fn color_spec_of(s: Seq<u8>) -> Option<Rgb> {
    if is_rgb_prefix(s) {
        rgb_spec_of(s)
    } else if s.len() >= 1 && s[0] == 0x23 {
        hash_spec_of(s)
    } else {
        None
    }
}

fn hex_digit_value(b: u8) -> (r: Option<u32>)
    ensures
        r == (if is_hex(b) {
            Some(hex_digit(b) as u32)
        } else {
            None::<u32>
        }),
{
    if b >= 0x30 && b <= 0x39 {
        Some((b - 0x30) as u32)
    } else if b >= 0x41 && b <= 0x46 {
        Some((b - 0x41 + 10) as u32)
    } else if b >= 0x61 && b <= 0x66 {
        Some((b - 0x61 + 10) as u32)
    } else {
        None
    }
}

proof fn lemma_hex_value_bound(s: Seq<u8>)
    requires
        forall|i: int| 0 <= i < s.len() ==> is_hex(#[trigger] s[i]),
    ensures
        s.len() == 0 ==> hex_value(s) == 0,
        s.len() == 1 ==> hex_value(s) <= 15,
        s.len() == 2 ==> hex_value(s) <= 255,
        s.len() == 3 ==> hex_value(s) <= 4095,
        s.len() == 4 ==> hex_value(s) <= 65535,
    decreases s.len(),
{
    if s.len() > 0 {
        let t = s.drop_last();
        assert forall|i: int| 0 <= i < t.len() implies is_hex(#[trigger] t[i]) by {
            assert(t[i] == s[i]);
        }
        lemma_hex_value_bound(t);
        assert(is_hex(s.last()));
    }
}

/// Reads the component `s[lo..hi]`.
fn parse_component(s: &[u8], lo: usize, hi: usize) -> (r: Option<u8>)
    requires
        lo <= hi <= s@.len(),
    ensures
        r == component_of(s@.subrange(lo as int, hi as int)),
{
    let ghost sub = s@.subrange(lo as int, hi as int);
    if hi - lo < 1 || hi - lo > 4 {
        return None;
    }
    let mut val: u32 = 0;
    let mut i: usize = lo;
    while i < hi
        invariant
            lo <= i <= hi,
            hi - lo <= 4,
            hi <= s@.len(),
            sub == s@.subrange(lo as int, hi as int),
            forall|k: int| 0 <= k < i - lo ==> is_hex(#[trigger] sub[k]),
            val as nat == hex_value(sub.take(i - lo)),
            val <= 65535,
        decreases hi - i,
    {
        match hex_digit_value(s[i]) {
            None => {
                assert(!is_hex(sub[i - lo]));
                return None;
            },
            Some(d) => {
                proof {
                    assert(sub.take(i - lo + 1).drop_last() =~= sub.take(i - lo));
                    assert(sub.take(i - lo + 1).last() == s@[i as int]);
                    let t = sub.take(i - lo + 1);
                    assert forall|k: int| 0 <= k < t.len() implies is_hex(#[trigger] t[k]) by {
                        assert(t[k] == sub[k]);
                    }
                    lemma_hex_value_bound(t);
                }
                val = val * 16 + d;
                i = i + 1;
            },
        }
    }
    assert(sub.take(hi - lo) =~= sub);
    let n: u32 = (hi - lo) as u32;
    let max: u32 = if n == 1 {
        15
    } else if n == 2 {
        255
    } else if n == 3 {
        4095
    } else {
        65535
    };
    assert(val <= max) by {
        lemma_hex_value_bound(sub);
    }
    assert((val as int) * 255 / (max as int) <= 255) by (nonlinear_arith)
        requires
            val <= max,
            max > 0,
    ;
    Some((val * 255 / max) as u8)
}

/// Index of the first `b` in `s` at or after `from`, or `s.len()`.
fn find(s: &[u8], b: u8, from: usize) -> (r: usize)
    requires
        from <= s@.len(),
    ensures
        r == find_byte(s@, b, from as int),
        from <= r <= s@.len(),
{
    let mut i = from;
    while i < s.len()
        invariant
            from <= i <= s@.len(),
            find_byte(s@, b, from as int) == find_byte(s@, b, i as int),
        decreases s@.len() - i,
    {
        if s[i] == b {
            return i;
        }
        i = i + 1;
    }
    i
}

/// Parses an X11-style color specification: `rgb:R/G/B` with one to four
/// hex digits per component, or `#` followed by three equal runs of one to
/// four hex digits. Components are scaled to eight bits.
pub fn parse_color_spec(s: &[u8]) -> (r: Option<Rgb>)
    ensures
        r == color_spec_of(s@),
{
    if s.len() >= 4 && s[0] == 0x72 && s[1] == 0x67 && s[2] == 0x62 && s[3] == 0x3a {
        let i = find(s, 0x2f, 4);
        if i >= s.len() {
            return None;
        }
        let j = find(s, 0x2f, i + 1);
        if j >= s.len() {
            return None;
        }
        let a = parse_component(s, 4, i);
        let b = parse_component(s, i + 1, j);
        let c = parse_component(s, j + 1, s.len());
        match (a, b, c) {
            (Some(r), Some(g), Some(b)) => Some(Rgb { r, g, b }),
            _ => None,
        }
    } else if s.len() >= 1 && s[0] == 0x23 {
        let len = s.len() - 1;
        let n = len / 3;
        if len % 3 != 0 || n < 1 || n > 4 {
            return None;
        }
        let a = parse_component(s, 1, 1 + n);
        let b = parse_component(s, 1 + n, 1 + 2 * n);
        let c = parse_component(s, 1 + 2 * n, 1 + 3 * n);
        match (a, b, c) {
            (Some(r), Some(g), Some(b)) => Some(Rgb { r, g, b }),
            _ => None,
        }
    } else {
        None
    }
}

} // verus!
