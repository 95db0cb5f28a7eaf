//! The wire format of snapshots: little-endian, length-prefixed, one
//! presence flag per subsection. Every encoder has a specification-level
//! twin, every decoder is pinned to a specification-level parser, and a
//! round-trip lemma ties each pair together.

use vstd::prelude::*;

use crate::state::AnimationEntry;
use crate::state::InteractionState;
use crate::state::Options;
use crate::state::ViewportEntry;
use crate::state::Style;
use crate::state::TextStyle;
use crate::state::Theme;
use crate::state::ThemePreference;

verus! {

// ---------------------------------------------------------------------
// Unsigned 64-bit values: eight bytes, least significant first.
// ---------------------------------------------------------------------
pub open spec fn enc_u64(x: u64) -> Seq<u8> {
    seq![
        (x & 0xff) as u8,
        ((x >> 8) & 0xff) as u8,
        ((x >> 16) & 0xff) as u8,
        ((x >> 24) & 0xff) as u8,
        ((x >> 32) & 0xff) as u8,
        ((x >> 40) & 0xff) as u8,
        ((x >> 48) & 0xff) as u8,
        ((x >> 56) & 0xff) as u8,
    ]
}

pub open spec fn u64_from_bytes(
    b0: u8,
    b1: u8,
    b2: u8,
    b3: u8,
    b4: u8,
    b5: u8,
    b6: u8,
    b7: u8,
) -> u64 {
    (b0 as u64) | ((b1 as u64) << 8) | ((b2 as u64) << 16) | ((b3 as u64) << 24) | ((b4 as u64)
        << 32) | ((b5 as u64) << 40) | ((b6 as u64) << 48) | ((b7 as u64) << 56)
}

pub open spec fn dec_u64(b: Seq<u8>) -> Option<(u64, Seq<u8>)> {
    if b.len() >= 8 {
        Some((u64_from_bytes(b[0], b[1], b[2], b[3], b[4], b[5], b[6], b[7]), b.skip(8)))
    } else {
        None
    }
}

pub proof fn lemma_dec_enc_u64(x: u64, rest: Seq<u8>)
    ensures
        dec_u64(enc_u64(x) + rest) == Some((x, rest)),
{
    let e = enc_u64(x) + rest;
    assert(e.len() >= 8);
    assert(e[0] == (x & 0xff) as u8);
    assert(e[1] == ((x >> 8) & 0xff) as u8);
    assert(e[2] == ((x >> 16) & 0xff) as u8);
    assert(e[3] == ((x >> 24) & 0xff) as u8);
    assert(e[4] == ((x >> 32) & 0xff) as u8);
    assert(e[5] == ((x >> 40) & 0xff) as u8);
    assert(e[6] == ((x >> 48) & 0xff) as u8);
    assert(e[7] == ((x >> 56) & 0xff) as u8);
    assert((((x & 0xff) as u8) as u64) | ((((x >> 8) & 0xff) as u8) as u64) << 8 | ((((x >> 16)
        & 0xff) as u8) as u64) << 16 | ((((x >> 24) & 0xff) as u8) as u64) << 24 | ((((x >> 32)
        & 0xff) as u8) as u64) << 32 | ((((x >> 40) & 0xff) as u8) as u64) << 40 | ((((x >> 48)
        & 0xff) as u8) as u64) << 48 | ((((x >> 56) & 0xff) as u8) as u64) << 56 == x)
        by (bit_vector);
    assert(e.skip(8) =~= rest);
}

/// Append the little-endian encoding of `x`.
pub fn write_u64(out: &mut Vec<u8>, x: u64)
    ensures
        final(out)@ == old(out)@ + enc_u64(x),
{
    out.push((x & 0xff) as u8);
    out.push(((x >> 8) & 0xff) as u8);
    out.push(((x >> 16) & 0xff) as u8);
    out.push(((x >> 24) & 0xff) as u8);
    out.push(((x >> 32) & 0xff) as u8);
    out.push(((x >> 40) & 0xff) as u8);
    out.push(((x >> 48) & 0xff) as u8);
    out.push(((x >> 56) & 0xff) as u8);
    proof {
        assert(out@ =~= old(out)@ + enc_u64(x));
    }
}

/// Read eight bytes at `pos` as one value.
pub fn read_u64(bytes: &Vec<u8>, pos: usize) -> (r: Option<(u64, usize)>)
    requires
        pos <= bytes@.len(),
    ensures
        match r {
            Some(v) => dec_u64(bytes@.skip(pos as int)) == Some((v.0, bytes@.skip(v.1 as int)))
                && pos <= v.1 <= bytes@.len(),
            None => dec_u64(bytes@.skip(pos as int)) is None,
        },
{
    if bytes.len() - pos < 8 {
        return None;
    }
    let b0 = bytes[pos] as u64;
    let b1 = bytes[pos + 1] as u64;
    let b2 = bytes[pos + 2] as u64;
    let b3 = bytes[pos + 3] as u64;
    let b4 = bytes[pos + 4] as u64;
    let b5 = bytes[pos + 5] as u64;
    let b6 = bytes[pos + 6] as u64;
    let b7 = bytes[pos + 7] as u64;
    let x = b0 | (b1 << 8) | (b2 << 16) | (b3 << 24) | (b4 << 32) | (b5 << 40) | (b6 << 48) | (b7
        << 56);
    proof {
        let s = bytes@.skip(pos as int);
        assert(s[0] == bytes@[pos as int]);
        assert(s[1] == bytes@[pos as int + 1]);
        assert(s[2] == bytes@[pos as int + 2]);
        assert(s[3] == bytes@[pos as int + 3]);
        assert(s[4] == bytes@[pos as int + 4]);
        assert(s[5] == bytes@[pos as int + 5]);
        assert(s[6] == bytes@[pos as int + 6]);
        assert(s[7] == bytes@[pos as int + 7]);
        assert(s.skip(8) =~= bytes@.skip(pos as int + 8));
    }
    Some((x, pos + 8))
}

// ---------------------------------------------------------------------
// Single tag bytes: booleans and small enumerations. Decoding is strict:
// a tag outside the known range is a malformed input, not a default.
// ---------------------------------------------------------------------
pub open spec fn enc_bool(v: bool) -> Seq<u8> {
    seq![if v { 1u8 } else { 0u8 }]
}

pub open spec fn dec_bool(b: Seq<u8>) -> Option<(bool, Seq<u8>)> {
    if b.len() >= 1 {
        if b[0] == 0 {
            Some((false, b.skip(1)))
        } else if b[0] == 1 {
            Some((true, b.skip(1)))
        } else {
            None
        }
    } else {
        None
    }
}

pub proof fn lemma_dec_enc_bool(v: bool, rest: Seq<u8>)
    ensures
        dec_bool(enc_bool(v) + rest) == Some((v, rest)),
{
    let e = enc_bool(v) + rest;
    assert(e[0] == if v { 1u8 } else { 0u8 });
    assert(e.skip(1) =~= rest);
}

pub fn write_bool(out: &mut Vec<u8>, v: bool)
    ensures
        final(out)@ == old(out)@ + enc_bool(v),
{
    out.push(if v { 1u8 } else { 0u8 });
    proof {
        assert(out@ =~= old(out)@ + enc_bool(v));
    }
}

pub fn read_bool(bytes: &Vec<u8>, pos: usize) -> (r: Option<(bool, usize)>)
    requires
        pos <= bytes@.len(),
    ensures
        match r {
            Some(v) => dec_bool(bytes@.skip(pos as int)) == Some((v.0, bytes@.skip(v.1 as int)))
                && pos <= v.1 <= bytes@.len(),
            None => dec_bool(bytes@.skip(pos as int)) is None,
        },
{
    if bytes.len() - pos < 1 {
        return None;
    }
    proof {
        assert(bytes@.skip(pos as int)[0] == bytes@[pos as int]);
        assert(bytes@.skip(pos as int).skip(1) =~= bytes@.skip(pos as int + 1));
    }
    let t = bytes[pos];
    if t == 0 {
        Some((false, pos + 1))
    } else if t == 1 {
        Some((true, pos + 1))
    } else {
        None
    }
}

pub open spec fn theme_tag(t: Theme) -> u8 {
    match t {
        Theme::Dark => 0,
        Theme::Light => 1,
    }
}

pub open spec fn enc_theme(t: Theme) -> Seq<u8> {
    seq![theme_tag(t)]
}

pub open spec fn dec_theme(b: Seq<u8>) -> Option<(Theme, Seq<u8>)> {
    if b.len() >= 1 {
        if b[0] == 0 {
            Some((Theme::Dark, b.skip(1)))
        } else if b[0] == 1 {
            Some((Theme::Light, b.skip(1)))
        } else {
            None
        }
    } else {
        None
    }
}

pub proof fn lemma_dec_enc_theme(t: Theme, rest: Seq<u8>)
    ensures
        dec_theme(enc_theme(t) + rest) == Some((t, rest)),
{
    let e = enc_theme(t) + rest;
    assert(e[0] == theme_tag(t));
    assert(e.skip(1) =~= rest);
}

pub fn write_theme(out: &mut Vec<u8>, t: Theme)
    ensures
        final(out)@ == old(out)@ + enc_theme(t),
{
    out.push(match t {
        Theme::Dark => 0u8,
        Theme::Light => 1u8,
    });
    proof {
        assert(out@ =~= old(out)@ + enc_theme(t));
    }
}

pub fn read_theme(bytes: &Vec<u8>, pos: usize) -> (r: Option<(Theme, usize)>)
    requires
        pos <= bytes@.len(),
    ensures
        match r {
            Some(v) => dec_theme(bytes@.skip(pos as int)) == Some((v.0, bytes@.skip(v.1 as int)))
                && pos <= v.1 <= bytes@.len(),
            None => dec_theme(bytes@.skip(pos as int)) is None,
        },
{
    if bytes.len() - pos < 1 {
        return None;
    }
    proof {
        assert(bytes@.skip(pos as int)[0] == bytes@[pos as int]);
        assert(bytes@.skip(pos as int).skip(1) =~= bytes@.skip(pos as int + 1));
    }
    let t = bytes[pos];
    if t == 0 {
        Some((Theme::Dark, pos + 1))
    } else if t == 1 {
        Some((Theme::Light, pos + 1))
    } else {
        None
    }
}

pub open spec fn theme_preference_tag(t: ThemePreference) -> u8 {
    match t {
        ThemePreference::Dark => 0,
        ThemePreference::Light => 1,
        ThemePreference::System => 2,
    }
}

pub open spec fn enc_theme_preference(t: ThemePreference) -> Seq<u8> {
    seq![theme_preference_tag(t)]
}

pub open spec fn dec_theme_preference(b: Seq<u8>) -> Option<(ThemePreference, Seq<u8>)> {
    if b.len() >= 1 {
        if b[0] == 0 {
            Some((ThemePreference::Dark, b.skip(1)))
        } else if b[0] == 1 {
            Some((ThemePreference::Light, b.skip(1)))
        } else if b[0] == 2 {
            Some((ThemePreference::System, b.skip(1)))
        } else {
            None
        }
    } else {
        None
    }
}

pub proof fn lemma_dec_enc_theme_preference(t: ThemePreference, rest: Seq<u8>)
    ensures
        dec_theme_preference(enc_theme_preference(t) + rest) == Some((t, rest)),
{
    let e = enc_theme_preference(t) + rest;
    assert(e[0] == theme_preference_tag(t));
    assert(e.skip(1) =~= rest);
}

pub fn write_theme_preference(out: &mut Vec<u8>, t: ThemePreference)
    ensures
        final(out)@ == old(out)@ + enc_theme_preference(t),
{
    out.push(match t {
        ThemePreference::Dark => 0u8,
        ThemePreference::Light => 1u8,
        ThemePreference::System => 2u8,
    });
    proof {
        assert(out@ =~= old(out)@ + enc_theme_preference(t));
    }
}

pub fn read_theme_preference(bytes: &Vec<u8>, pos: usize) -> (r: Option<(ThemePreference, usize)>)
    requires
        pos <= bytes@.len(),
    ensures
        match r {
            Some(v) => dec_theme_preference(bytes@.skip(pos as int)) == Some(
                (v.0, bytes@.skip(v.1 as int)),
            ) && pos <= v.1 <= bytes@.len(),
            None => dec_theme_preference(bytes@.skip(pos as int)) is None,
        },
{
    if bytes.len() - pos < 1 {
        return None;
    }
    proof {
        assert(bytes@.skip(pos as int)[0] == bytes@[pos as int]);
        assert(bytes@.skip(pos as int).skip(1) =~= bytes@.skip(pos as int + 1));
    }
    let t = bytes[pos];
    if t == 0 {
        Some((ThemePreference::Dark, pos + 1))
    } else if t == 1 {
        Some((ThemePreference::Light, pos + 1))
    } else if t == 2 {
        Some((ThemePreference::System, pos + 1))
    } else {
        None
    }
}

pub open spec fn text_style_tag(t: TextStyle) -> u8 {
    match t {
        TextStyle::Small => 0,
        TextStyle::Body => 1,
        TextStyle::Monospace => 2,
        TextStyle::Button => 3,
        TextStyle::Heading => 4,
    }
}

pub open spec fn enc_text_style(t: TextStyle) -> Seq<u8> {
    seq![text_style_tag(t)]
}

pub open spec fn dec_text_style(b: Seq<u8>) -> Option<(TextStyle, Seq<u8>)> {
    if b.len() >= 1 {
        if b[0] == 0 {
            Some((TextStyle::Small, b.skip(1)))
        } else if b[0] == 1 {
            Some((TextStyle::Body, b.skip(1)))
        } else if b[0] == 2 {
            Some((TextStyle::Monospace, b.skip(1)))
        } else if b[0] == 3 {
            Some((TextStyle::Button, b.skip(1)))
        } else if b[0] == 4 {
            Some((TextStyle::Heading, b.skip(1)))
        } else {
            None
        }
    } else {
        None
    }
}

pub proof fn lemma_dec_enc_text_style(t: TextStyle, rest: Seq<u8>)
    ensures
        dec_text_style(enc_text_style(t) + rest) == Some((t, rest)),
{
    let e = enc_text_style(t) + rest;
    assert(e[0] == text_style_tag(t));
    assert(e.skip(1) =~= rest);
}

pub fn write_text_style(out: &mut Vec<u8>, t: TextStyle)
    ensures
        final(out)@ == old(out)@ + enc_text_style(t),
{
    out.push(match t {
        TextStyle::Small => 0u8,
        TextStyle::Body => 1u8,
        TextStyle::Monospace => 2u8,
        TextStyle::Button => 3u8,
        TextStyle::Heading => 4u8,
    });
    proof {
        assert(out@ =~= old(out)@ + enc_text_style(t));
    }
}

pub fn read_text_style(bytes: &Vec<u8>, pos: usize) -> (r: Option<(TextStyle, usize)>)
    requires
        pos <= bytes@.len(),
    ensures
        match r {
            Some(v) => dec_text_style(bytes@.skip(pos as int)) == Some(
                (v.0, bytes@.skip(v.1 as int)),
            ) && pos <= v.1 <= bytes@.len(),
            None => dec_text_style(bytes@.skip(pos as int)) is None,
        },
{
    if bytes.len() - pos < 1 {
        return None;
    }
    proof {
        assert(bytes@.skip(pos as int)[0] == bytes@[pos as int]);
        assert(bytes@.skip(pos as int).skip(1) =~= bytes@.skip(pos as int + 1));
    }
    let t = bytes[pos];
    if t == 0 {
        Some((TextStyle::Small, pos + 1))
    } else if t == 1 {
        Some((TextStyle::Body, pos + 1))
    } else if t == 2 {
        Some((TextStyle::Monospace, pos + 1))
    } else if t == 3 {
        Some((TextStyle::Button, pos + 1))
    } else if t == 4 {
        Some((TextStyle::Heading, pos + 1))
    } else {
        None
    }
}

// ---------------------------------------------------------------------
// Optional scalars: a presence byte, then the value.
// ---------------------------------------------------------------------
pub open spec fn enc_opt_u64(o: Option<u64>) -> Seq<u8> {
    match o {
        None => seq![0u8],
        Some(x) => seq![1u8] + enc_u64(x),
    }
}

pub open spec fn dec_opt_u64(b: Seq<u8>) -> Option<(Option<u64>, Seq<u8>)> {
    if b.len() < 1 {
        None
    } else if b[0] == 0 {
        Some((None, b.skip(1)))
    } else if b[0] == 1 {
        match dec_u64(b.skip(1)) {
            None => None,
            Some((x, b2)) => Some((Some(x), b2)),
        }
    } else {
        None
    }
}

pub proof fn lemma_dec_enc_opt_u64(o: Option<u64>, rest: Seq<u8>)
    ensures
        dec_opt_u64(enc_opt_u64(o) + rest) == Some((o, rest)),
{
    match o {
        None => {
            let e = enc_opt_u64(o) + rest;
            assert(e[0] == 0u8);
            assert(e.skip(1) =~= rest);
        },
        Some(x) => {
            let e = enc_opt_u64(o) + rest;
            assert(e[0] == 1u8);
            assert(e.skip(1) =~= enc_u64(x) + rest);
            lemma_dec_enc_u64(x, rest);
        },
    }
}

pub fn write_opt_u64(out: &mut Vec<u8>, o: &Option<u64>)
    ensures
        final(out)@ == old(out)@ + enc_opt_u64(*o),
{
    match o {
        None => {
            out.push(0u8);
        },
        Some(x) => {
            out.push(1u8);
            write_u64(out, *x);
        },
    }
    proof {
        assert(out@ =~= old(out)@ + enc_opt_u64(*o));
    }
}

pub fn read_opt_u64(bytes: &Vec<u8>, pos: usize) -> (r: Option<(Option<u64>, usize)>)
    requires
        pos <= bytes@.len(),
    ensures
        match r {
            Some(v) => dec_opt_u64(bytes@.skip(pos as int)) == Some((v.0, bytes@.skip(v.1 as int)))
                && pos <= v.1 <= bytes@.len(),
            None => dec_opt_u64(bytes@.skip(pos as int)) is None,
        },
{
    if bytes.len() - pos < 1 {
        return None;
    }
    proof {
        assert(bytes@.skip(pos as int)[0] == bytes@[pos as int]);
        assert(bytes@.skip(pos as int).skip(1) =~= bytes@.skip(pos as int + 1));
    }
    let t = bytes[pos];
    if t == 0 {
        Some((None, pos + 1))
    } else if t == 1 {
        match read_u64(bytes, pos + 1) {
            None => None,
            Some((x, p2)) => Some((Some(x), p2)),
        }
    } else {
        None
    }
}

pub open spec fn enc_opt_theme(o: Option<Theme>) -> Seq<u8> {
    match o {
        None => seq![0u8],
        Some(t) => seq![1u8] + enc_theme(t),
    }
}

pub open spec fn dec_opt_theme(b: Seq<u8>) -> Option<(Option<Theme>, Seq<u8>)> {
    if b.len() < 1 {
        None
    } else if b[0] == 0 {
        Some((None, b.skip(1)))
    } else if b[0] == 1 {
        match dec_theme(b.skip(1)) {
            None => None,
            Some((t, b2)) => Some((Some(t), b2)),
        }
    } else {
        None
    }
}

pub proof fn lemma_dec_enc_opt_theme(o: Option<Theme>, rest: Seq<u8>)
    ensures
        dec_opt_theme(enc_opt_theme(o) + rest) == Some((o, rest)),
{
    match o {
        None => {
            let e = enc_opt_theme(o) + rest;
            assert(e[0] == 0u8);
            assert(e.skip(1) =~= rest);
        },
        Some(t) => {
            let e = enc_opt_theme(o) + rest;
            assert(e[0] == 1u8);
            assert(e.skip(1) =~= enc_theme(t) + rest);
            lemma_dec_enc_theme(t, rest);
        },
    }
}

pub fn write_opt_theme(out: &mut Vec<u8>, o: &Option<Theme>)
    ensures
        final(out)@ == old(out)@ + enc_opt_theme(*o),
{
    match o {
        None => {
            out.push(0u8);
        },
        Some(t) => {
            out.push(1u8);
            write_theme(out, *t);
        },
    }
    proof {
        assert(out@ =~= old(out)@ + enc_opt_theme(*o));
    }
}

pub fn read_opt_theme(bytes: &Vec<u8>, pos: usize) -> (r: Option<(Option<Theme>, usize)>)
    requires
        pos <= bytes@.len(),
    ensures
        match r {
            Some(v) => dec_opt_theme(bytes@.skip(pos as int)) == Some(
                (v.0, bytes@.skip(v.1 as int)),
            ) && pos <= v.1 <= bytes@.len(),
            None => dec_opt_theme(bytes@.skip(pos as int)) is None,
        },
{
    if bytes.len() - pos < 1 {
        return None;
    }
    proof {
        assert(bytes@.skip(pos as int)[0] == bytes@[pos as int]);
        assert(bytes@.skip(pos as int).skip(1) =~= bytes@.skip(pos as int + 1));
    }
    let t = bytes[pos];
    if t == 0 {
        Some((None, pos + 1))
    } else if t == 1 {
        match read_theme(bytes, pos + 1) {
            None => None,
            Some((x, p2)) => Some((Some(x), p2)),
        }
    } else {
        None
    }
}

// ---------------------------------------------------------------------
// The style subsection.
// ---------------------------------------------------------------------
pub open spec fn enc_style(s: Style) -> Seq<u8> {
    enc_text_style(s.drag_value_text_style) + enc_u64(s.animation_time_millis) + enc_bool(
        s.explanation_tooltips,
    ) + enc_bool(s.url_in_tooltip) + enc_bool(s.compact_menu_style)
}

pub open spec fn dec_style(b: Seq<u8>) -> Option<(Style, Seq<u8>)> {
    match dec_text_style(b) {
        None => None,
        Some((f0, b1)) => match dec_u64(b1) {
            None => None,
            Some((f1, b2)) => match dec_bool(b2) {
                None => None,
                Some((f2, b3)) => match dec_bool(b3) {
                    None => None,
                    Some((f3, b4)) => match dec_bool(b4) {
                        None => None,
                        Some((f4, b5)) => Some(
                            (
                                Style {
                                    drag_value_text_style: f0,
                                    animation_time_millis: f1,
                                    explanation_tooltips: f2,
                                    url_in_tooltip: f3,
                                    compact_menu_style: f4,
                                },
                                b5,
                            ),
                        ),
                    },
                },
            },
        },
    }
}

#[verifier::rlimit(60)]
pub proof fn lemma_dec_enc_style(s: Style, rest: Seq<u8>)
    ensures
        dec_style(enc_style(s) + rest) == Some((s, rest)),
{
    let r4 = enc_bool(s.compact_menu_style) + rest;
    let r3 = enc_bool(s.url_in_tooltip) + r4;
    let r2 = enc_bool(s.explanation_tooltips) + r3;
    let r1 = enc_u64(s.animation_time_millis) + r2;
    assert(enc_style(s) + rest =~= enc_text_style(s.drag_value_text_style) + r1);
    lemma_dec_enc_text_style(s.drag_value_text_style, r1);
    lemma_dec_enc_u64(s.animation_time_millis, r2);
    lemma_dec_enc_bool(s.explanation_tooltips, r3);
    lemma_dec_enc_bool(s.url_in_tooltip, r4);
    lemma_dec_enc_bool(s.compact_menu_style, rest);
}

pub fn write_style(out: &mut Vec<u8>, s: &Style)
    ensures
        final(out)@ == old(out)@ + enc_style(*s),
{
    write_text_style(out, s.drag_value_text_style);
    write_u64(out, s.animation_time_millis);
    write_bool(out, s.explanation_tooltips);
    write_bool(out, s.url_in_tooltip);
    write_bool(out, s.compact_menu_style);
    proof {
        assert(out@ =~= old(out)@ + enc_style(*s));
    }
}

pub fn read_style(bytes: &Vec<u8>, pos: usize) -> (r: Option<(Style, usize)>)
    requires
        pos <= bytes@.len(),
    ensures
        match r {
            Some(v) => dec_style(bytes@.skip(pos as int)) == Some((v.0, bytes@.skip(v.1 as int)))
                && pos <= v.1 <= bytes@.len(),
            None => dec_style(bytes@.skip(pos as int)) is None,
        },
{
    match read_text_style(bytes, pos) {
        None => None,
        Some((f0, p1)) => match read_u64(bytes, p1) {
            None => None,
            Some((f1, p2)) => match read_bool(bytes, p2) {
                None => None,
                Some((f2, p3)) => match read_bool(bytes, p3) {
                    None => None,
                    Some((f3, p4)) => match read_bool(bytes, p4) {
                        None => None,
                        Some((f4, p5)) => Some(
                            (
                                Style {
                                    drag_value_text_style: f0,
                                    animation_time_millis: f1,
                                    explanation_tooltips: f2,
                                    url_in_tooltip: f3,
                                    compact_menu_style: f4,
                                },
                                p5,
                            ),
                        ),
                    },
                },
            },
        },
    }
}

// ---------------------------------------------------------------------
// The options subsection. Decoding validates well-formedness: a pass
// budget of zero is a malformed input.
// ---------------------------------------------------------------------
pub open spec fn enc_options(o: Options) -> Seq<u8> {
    enc_style(o.dark_style) + enc_style(o.light_style) + enc_theme_preference(o.theme_preference)
        + enc_theme(o.fallback_theme) + enc_opt_theme(o.system_theme) + enc_u64(
        o.zoom_factor_percent,
    ) + enc_bool(o.zoom_with_keyboard) + enc_u64(o.max_passes) + enc_bool(o.reduce_texture_memory)
}

pub open spec fn dec_options(b: Seq<u8>) -> Option<(Options, Seq<u8>)> {
    match dec_style(b) {
        None => None,
        Some((f0, b1)) => match dec_style(b1) {
            None => None,
            Some((f1, b2)) => match dec_theme_preference(b2) {
                None => None,
                Some((f2, b3)) => match dec_theme(b3) {
                    None => None,
                    Some((f3, b4)) => match dec_opt_theme(b4) {
                        None => None,
                        Some((f4, b5)) => match dec_u64(b5) {
                            None => None,
                            Some((f5, b6)) => match dec_bool(b6) {
                                None => None,
                                Some((f6, b7)) => match dec_u64(b7) {
                                    None => None,
                                    Some((f7, b8)) => match dec_bool(b8) {
                                        None => None,
                                        Some((f8, b9)) => if f7 >= 1 {
                                            Some(
                                                (
                                                    Options {
                                                        dark_style: f0,
                                                        light_style: f1,
                                                        theme_preference: f2,
                                                        fallback_theme: f3,
                                                        system_theme: f4,
                                                        zoom_factor_percent: f5,
                                                        zoom_with_keyboard: f6,
                                                        max_passes: f7,
                                                        reduce_texture_memory: f8,
                                                    },
                                                    b9,
                                                ),
                                            )
                                        } else {
                                            None
                                        },
                                    },
                                },
                            },
                        },
                    },
                },
            },
        },
    }
}

#[verifier::rlimit(100)]
pub proof fn lemma_dec_enc_options(o: Options, rest: Seq<u8>)
    requires
        o.wf(),
    ensures
        dec_options(enc_options(o) + rest) == Some((o, rest)),
{
    let e0 = enc_style(o.dark_style);
    let e1 = enc_style(o.light_style);
    let e2 = enc_theme_preference(o.theme_preference);
    let e3 = enc_theme(o.fallback_theme);
    let e4 = enc_opt_theme(o.system_theme);
    let e5 = enc_u64(o.zoom_factor_percent);
    let e6 = enc_bool(o.zoom_with_keyboard);
    let e7 = enc_u64(o.max_passes);
    let e8 = enc_bool(o.reduce_texture_memory);
    let r8 = e8 + rest;
    let r7 = e7 + r8;
    let r6 = e6 + r7;
    let r5 = e5 + r6;
    let r4 = e4 + r5;
    let r3 = e3 + r4;
    let r2 = e2 + r3;
    let r1 = e1 + r2;
    let p1 = e0 + e1;
    let p2 = p1 + e2;
    let p3 = p2 + e3;
    let p4 = p3 + e4;
    let p5 = p4 + e5;
    let p6 = p5 + e6;
    let p7 = p6 + e7;
    let p8 = p7 + e8;
    assert(enc_options(o) == p8);
    vstd::seq_lib::lemma_concat_associative(p7, e8, rest);
    vstd::seq_lib::lemma_concat_associative(p6, e7, r8);
    vstd::seq_lib::lemma_concat_associative(p5, e6, r7);
    vstd::seq_lib::lemma_concat_associative(p4, e5, r6);
    vstd::seq_lib::lemma_concat_associative(p3, e4, r5);
    vstd::seq_lib::lemma_concat_associative(p2, e3, r4);
    vstd::seq_lib::lemma_concat_associative(p1, e2, r3);
    vstd::seq_lib::lemma_concat_associative(e0, e1, r2);
    assert(enc_options(o) + rest == e0 + r1);
    lemma_dec_enc_style(o.dark_style, r1);
    lemma_dec_enc_style(o.light_style, r2);
    lemma_dec_enc_theme_preference(o.theme_preference, r3);
    lemma_dec_enc_theme(o.fallback_theme, r4);
    lemma_dec_enc_opt_theme(o.system_theme, r5);
    lemma_dec_enc_u64(o.zoom_factor_percent, r6);
    lemma_dec_enc_bool(o.zoom_with_keyboard, r7);
    lemma_dec_enc_u64(o.max_passes, r8);
    lemma_dec_enc_bool(o.reduce_texture_memory, rest);
}

pub fn write_options(out: &mut Vec<u8>, o: &Options)
    ensures
        final(out)@ == old(out)@ + enc_options(*o),
{
    let ghost base = out@;
    write_style(out, &o.dark_style);
    write_style(out, &o.light_style);
    proof {
        vstd::seq_lib::lemma_concat_associative(
            base,
            enc_style(o.dark_style),
            enc_style(o.light_style),
        );
    }
    write_theme_preference(out, o.theme_preference);
    proof {
        vstd::seq_lib::lemma_concat_associative(
            base,
            enc_style(o.dark_style) + enc_style(o.light_style),
            enc_theme_preference(o.theme_preference),
        );
    }
    write_theme(out, o.fallback_theme);
    proof {
        vstd::seq_lib::lemma_concat_associative(
            base,
            enc_style(o.dark_style) + enc_style(o.light_style) + enc_theme_preference(
                o.theme_preference,
            ),
            enc_theme(o.fallback_theme),
        );
    }
    write_opt_theme(out, &o.system_theme);
    proof {
        vstd::seq_lib::lemma_concat_associative(
            base,
            enc_style(o.dark_style) + enc_style(o.light_style) + enc_theme_preference(
                o.theme_preference,
            ) + enc_theme(o.fallback_theme),
            enc_opt_theme(o.system_theme),
        );
    }
    write_u64(out, o.zoom_factor_percent);
    proof {
        vstd::seq_lib::lemma_concat_associative(
            base,
            enc_style(o.dark_style) + enc_style(o.light_style) + enc_theme_preference(
                o.theme_preference,
            ) + enc_theme(o.fallback_theme) + enc_opt_theme(o.system_theme),
            enc_u64(o.zoom_factor_percent),
        );
    }
    write_bool(out, o.zoom_with_keyboard);
    proof {
        vstd::seq_lib::lemma_concat_associative(
            base,
            enc_style(o.dark_style) + enc_style(o.light_style) + enc_theme_preference(
                o.theme_preference,
            ) + enc_theme(o.fallback_theme) + enc_opt_theme(o.system_theme) + enc_u64(
                o.zoom_factor_percent,
            ),
            enc_bool(o.zoom_with_keyboard),
        );
    }
    write_u64(out, o.max_passes);
    proof {
        vstd::seq_lib::lemma_concat_associative(
            base,
            enc_style(o.dark_style) + enc_style(o.light_style) + enc_theme_preference(
                o.theme_preference,
            ) + enc_theme(o.fallback_theme) + enc_opt_theme(o.system_theme) + enc_u64(
                o.zoom_factor_percent,
            ) + enc_bool(o.zoom_with_keyboard),
            enc_u64(o.max_passes),
        );
    }
    write_bool(out, o.reduce_texture_memory);
    proof {
        vstd::seq_lib::lemma_concat_associative(
            base,
            enc_style(o.dark_style) + enc_style(o.light_style) + enc_theme_preference(
                o.theme_preference,
            ) + enc_theme(o.fallback_theme) + enc_opt_theme(o.system_theme) + enc_u64(
                o.zoom_factor_percent,
            ) + enc_bool(o.zoom_with_keyboard) + enc_u64(o.max_passes),
            enc_bool(o.reduce_texture_memory),
        );
    }
}

pub fn read_options(bytes: &Vec<u8>, pos: usize) -> (r: Option<(Options, usize)>)
    requires
        pos <= bytes@.len(),
    ensures
        match r {
            Some(v) => dec_options(bytes@.skip(pos as int)) == Some((v.0, bytes@.skip(v.1 as int)))
                && pos <= v.1 <= bytes@.len() && v.0.wf(),
            None => dec_options(bytes@.skip(pos as int)) is None,
        },
{
    match read_style(bytes, pos) {
        None => None,
        Some((f0, p1)) => match read_style(bytes, p1) {
            None => None,
            Some((f1, p2)) => match read_theme_preference(bytes, p2) {
                None => None,
                Some((f2, p3)) => match read_theme(bytes, p3) {
                    None => None,
                    Some((f3, p4)) => match read_opt_theme(bytes, p4) {
                        None => None,
                        Some((f4, p5)) => match read_u64(bytes, p5) {
                            None => None,
                            Some((f5, p6)) => match read_bool(bytes, p6) {
                                None => None,
                                Some((f6, p7)) => match read_u64(bytes, p7) {
                                    None => None,
                                    Some((f7, p8)) => match read_bool(bytes, p8) {
                                        None => None,
                                        Some((f8, p9)) => if f7 >= 1 {
                                            Some(
                                                (
                                                    Options {
                                                        dark_style: f0,
                                                        light_style: f1,
                                                        theme_preference: f2,
                                                        fallback_theme: f3,
                                                        system_theme: f4,
                                                        zoom_factor_percent: f5,
                                                        zoom_with_keyboard: f6,
                                                        max_passes: f7,
                                                        reduce_texture_memory: f8,
                                                    },
                                                    p9,
                                                ),
                                            )
                                        } else {
                                            None
                                        },
                                    },
                                },
                            },
                        },
                    },
                },
            },
        },
    }
}

// ---------------------------------------------------------------------
// Per-viewport interaction entries and animation entries.
// ---------------------------------------------------------------------
pub open spec fn enc_viewport_entry(e: ViewportEntry) -> Seq<u8> {
    enc_u64(e.viewport_id) + enc_opt_u64(e.state.potential_click_id) + enc_opt_u64(
        e.state.potential_drag_id,
    )
}

pub open spec fn dec_viewport_entry(b: Seq<u8>) -> Option<(ViewportEntry, Seq<u8>)> {
    match dec_u64(b) {
        None => None,
        Some((f0, b1)) => match dec_opt_u64(b1) {
            None => None,
            Some((f1, b2)) => match dec_opt_u64(b2) {
                None => None,
                Some((f2, b3)) => Some(
                    (
                        ViewportEntry {
                            viewport_id: f0,
                            state: InteractionState {
                                potential_click_id: f1,
                                potential_drag_id: f2,
                            },
                        },
                        b3,
                    ),
                ),
            },
        },
    }
}

pub proof fn lemma_dec_enc_viewport_entry(e: ViewportEntry, rest: Seq<u8>)
    ensures
        dec_viewport_entry(enc_viewport_entry(e) + rest) == Some((e, rest)),
{
    let e2 = enc_opt_u64(e.state.potential_drag_id);
    let e1 = enc_opt_u64(e.state.potential_click_id);
    let e0 = enc_u64(e.viewport_id);
    let r2 = e2 + rest;
    let r1 = e1 + r2;
    vstd::seq_lib::lemma_concat_associative(e0 + e1, e2, rest);
    vstd::seq_lib::lemma_concat_associative(e0, e1, r2);
    lemma_dec_enc_u64(e.viewport_id, r1);
    lemma_dec_enc_opt_u64(e.state.potential_click_id, r2);
    lemma_dec_enc_opt_u64(e.state.potential_drag_id, rest);
}

pub fn write_viewport_entry(out: &mut Vec<u8>, e: &ViewportEntry)
    ensures
        final(out)@ == old(out)@ + enc_viewport_entry(*e),
{
    let ghost base = out@;
    write_u64(out, e.viewport_id);
    write_opt_u64(out, &e.state.potential_click_id);
    proof {
        vstd::seq_lib::lemma_concat_associative(
            base,
            enc_u64(e.viewport_id),
            enc_opt_u64(e.state.potential_click_id),
        );
    }
    write_opt_u64(out, &e.state.potential_drag_id);
    proof {
        vstd::seq_lib::lemma_concat_associative(
            base,
            enc_u64(e.viewport_id) + enc_opt_u64(e.state.potential_click_id),
            enc_opt_u64(e.state.potential_drag_id),
        );
    }
}

pub fn read_viewport_entry(bytes: &Vec<u8>, pos: usize) -> (r: Option<(ViewportEntry, usize)>)
    requires
        pos <= bytes@.len(),
    ensures
        match r {
            Some(v) => dec_viewport_entry(bytes@.skip(pos as int)) == Some(
                (v.0, bytes@.skip(v.1 as int)),
            ) && pos <= v.1 <= bytes@.len(),
            None => dec_viewport_entry(bytes@.skip(pos as int)) is None,
        },
{
    match read_u64(bytes, pos) {
        None => None,
        Some((f0, p1)) => match read_opt_u64(bytes, p1) {
            None => None,
            Some((f1, p2)) => match read_opt_u64(bytes, p2) {
                None => None,
                Some((f2, p3)) => Some(
                    (
                        ViewportEntry {
                            viewport_id: f0,
                            state: InteractionState {
                                potential_click_id: f1,
                                potential_drag_id: f2,
                            },
                        },
                        p3,
                    ),
                ),
            },
        },
    }
}

pub open spec fn enc_animation_entry(e: AnimationEntry) -> Seq<u8> {
    enc_u64(e.id) + enc_u64(e.progress_millis)
}

pub open spec fn dec_animation_entry(b: Seq<u8>) -> Option<(AnimationEntry, Seq<u8>)> {
    match dec_u64(b) {
        None => None,
        Some((f0, b1)) => match dec_u64(b1) {
            None => None,
            Some((f1, b2)) => Some((AnimationEntry { id: f0, progress_millis: f1 }, b2)),
        },
    }
}

pub proof fn lemma_dec_enc_animation_entry(e: AnimationEntry, rest: Seq<u8>)
    ensures
        dec_animation_entry(enc_animation_entry(e) + rest) == Some((e, rest)),
{
    let r1 = enc_u64(e.progress_millis) + rest;
    vstd::seq_lib::lemma_concat_associative(enc_u64(e.id), enc_u64(e.progress_millis), rest);
    lemma_dec_enc_u64(e.id, r1);
    lemma_dec_enc_u64(e.progress_millis, rest);
}

pub fn write_animation_entry(out: &mut Vec<u8>, e: &AnimationEntry)
    ensures
        final(out)@ == old(out)@ + enc_animation_entry(*e),
{
    let ghost base = out@;
    write_u64(out, e.id);
    write_u64(out, e.progress_millis);
    proof {
        vstd::seq_lib::lemma_concat_associative(
            base,
            enc_u64(e.id),
            enc_u64(e.progress_millis),
        );
    }
}

pub fn read_animation_entry(bytes: &Vec<u8>, pos: usize) -> (r: Option<(AnimationEntry, usize)>)
    requires
        pos <= bytes@.len(),
    ensures
        match r {
            Some(v) => dec_animation_entry(bytes@.skip(pos as int)) == Some(
                (v.0, bytes@.skip(v.1 as int)),
            ) && pos <= v.1 <= bytes@.len(),
            None => dec_animation_entry(bytes@.skip(pos as int)) is None,
        },
{
    match read_u64(bytes, pos) {
        None => None,
        Some((f0, p1)) => match read_u64(bytes, p1) {
            None => None,
            Some((f1, p2)) => Some((AnimationEntry { id: f0, progress_millis: f1 }, p2)),
        },
    }
}

// ---------------------------------------------------------------------
// Repetition: a count, then that many items.
// ---------------------------------------------------------------------
pub open spec fn enc_items<T>(enc_one: spec_fn(T) -> Seq<u8>, s: Seq<T>) -> Seq<u8>
    decreases s.len(),
{
    if s.len() == 0 {
        Seq::empty()
    } else {
        enc_one(s[0]) + enc_items(enc_one, s.drop_first())
    }
}

pub open spec fn dec_items<T>(
    dec_one: spec_fn(Seq<u8>) -> Option<(T, Seq<u8>)>,
    b: Seq<u8>,
    n: nat,
) -> Option<(Seq<T>, Seq<u8>)>
    decreases n,
{
    if n == 0 {
        Some((Seq::empty(), b))
    } else {
        match dec_one(b) {
            None => None,
            Some((x, b2)) => match dec_items(dec_one, b2, (n - 1) as nat) {
                None => None,
                Some((s, b3)) => Some((seq![x] + s, b3)),
            },
        }
    }
}

/// Appending one item to the item sequence appends its encoding.
pub proof fn lemma_enc_items_push<T>(enc_one: spec_fn(T) -> Seq<u8>, s: Seq<T>, x: T)
    ensures
        enc_items(enc_one, s.push(x)) == enc_items(enc_one, s) + enc_one(x),
    decreases s.len(),
{
    if s.len() == 0 {
        assert(s.push(x)[0] == x);
        assert(s.push(x).drop_first() =~= Seq::<T>::empty());
        assert(enc_items(enc_one, Seq::<T>::empty()) == Seq::<u8>::empty());
        assert(enc_items(enc_one, s.push(x)) == enc_one(x) + Seq::<u8>::empty());
        assert(enc_one(x) + Seq::<u8>::empty() =~= enc_one(x));
        assert(enc_items(enc_one, s) + enc_one(x) =~= enc_one(x));
    } else {
        assert(s.push(x).drop_first() =~= s.drop_first().push(x));
        lemma_enc_items_push(enc_one, s.drop_first(), x);
        assert(s.push(x)[0] == s[0]);
        vstd::seq_lib::lemma_concat_associative(
            enc_one(s[0]),
            enc_items(enc_one, s.drop_first()),
            enc_one(x),
        );
    }
}

/// Decoding the encoding of `s` yields `s` and leaves the rest untouched.
pub proof fn lemma_dec_enc_items<T>(
    enc_one: spec_fn(T) -> Seq<u8>,
    dec_one: spec_fn(Seq<u8>) -> Option<(T, Seq<u8>)>,
    s: Seq<T>,
    rest: Seq<u8>,
)
    requires
        forall|x: T, r: Seq<u8>| #[trigger] dec_one(enc_one(x) + r) == Some((x, r)),
    ensures
        dec_items(dec_one, enc_items(enc_one, s) + rest, s.len()) == Some((s, rest)),
    decreases s.len(),
{
    if s.len() == 0 {
        assert(enc_items(enc_one, s) + rest =~= rest);
        assert(dec_items(dec_one, rest, 0) == Some((Seq::<T>::empty(), rest)));
        assert(s =~= Seq::<T>::empty());
    } else {
        let tail = s.drop_first();
        lemma_dec_enc_items(enc_one, dec_one, tail, rest);
        vstd::seq_lib::lemma_concat_associative(
            enc_one(s[0]),
            enc_items(enc_one, tail),
            rest,
        );
        assert(dec_one(enc_one(s[0]) + (enc_items(enc_one, tail) + rest)) == Some(
            (s[0], enc_items(enc_one, tail) + rest),
        ));
        assert(seq![s[0]] + tail =~= s);
    }
}

/// One more item parses: the item sequence grows by one at the end.
pub proof fn lemma_dec_items_snoc<T>(
    dec_one: spec_fn(Seq<u8>) -> Option<(T, Seq<u8>)>,
    b: Seq<u8>,
    i: nat,
    s1: Seq<T>,
    r: Seq<u8>,
    x: T,
    r2: Seq<u8>,
)
    requires
        dec_items(dec_one, b, i) == Some((s1, r)),
        dec_one(r) == Some((x, r2)),
    ensures
        dec_items(dec_one, b, i + 1) == Some((s1.push(x), r2)),
    decreases i,
{
    if i == 0 {
        assert(s1 =~= Seq::<T>::empty());
        assert(r == b);
        assert(dec_items(dec_one, r2, 0) == Some((Seq::<T>::empty(), r2)));
        assert(dec_items(dec_one, b, 1) == Some((seq![x] + Seq::<T>::empty(), r2)));
        assert(seq![x] + Seq::<T>::empty() =~= s1.push(x));
    } else {
        let (y, b2) = dec_one(b)->Some_0;
        let (s, r_) = dec_items(dec_one, b2, (i - 1) as nat)->Some_0;
        assert(s1 == seq![y] + s);
        assert(r_ == r);
        lemma_dec_items_snoc(dec_one, b2, (i - 1) as nat, s, r, x, r2);
        assert(dec_items(dec_one, b, i + 1) == Some((seq![y] + s.push(x), r2)));
        assert(seq![y] + s.push(x) =~= (seq![y] + s).push(x));
    }
}

pub open spec fn enc_u64_fn() -> spec_fn(u64) -> Seq<u8> {
    |x: u64| enc_u64(x)
}

pub open spec fn dec_u64_fn() -> spec_fn(Seq<u8>) -> Option<(u64, Seq<u8>)> {
    |b: Seq<u8>| dec_u64(b)
}

pub open spec fn enc_viewport_entry_fn() -> spec_fn(ViewportEntry) -> Seq<u8> {
    |e: ViewportEntry| enc_viewport_entry(e)
}

pub open spec fn dec_viewport_entry_fn() -> spec_fn(Seq<u8>) -> Option<(ViewportEntry, Seq<u8>)> {
    |b: Seq<u8>| dec_viewport_entry(b)
}

pub open spec fn enc_animation_entry_fn() -> spec_fn(AnimationEntry) -> Seq<u8> {
    |e: AnimationEntry| enc_animation_entry(e)
}

pub open spec fn dec_animation_entry_fn() -> spec_fn(Seq<u8>) -> Option<(AnimationEntry, Seq<u8>)> {
    |b: Seq<u8>| dec_animation_entry(b)
}

/// If the next item fails to parse, no larger count can succeed.
pub proof fn lemma_dec_items_fail<T>(
    dec_one: spec_fn(Seq<u8>) -> Option<(T, Seq<u8>)>,
    b: Seq<u8>,
    i: nat,
    n: nat,
    s1: Seq<T>,
    r: Seq<u8>,
)
    requires
        dec_items(dec_one, b, i) == Some((s1, r)),
        dec_one(r) is None,
        i < n,
    ensures
        dec_items(dec_one, b, n) is None,
    decreases i,
{
    if i == 0 {
        assert(r == b);
    } else {
        let (y, b2) = dec_one(b)->Some_0;
        let (s, r_) = dec_items(dec_one, b2, (i - 1) as nat)->Some_0;
        lemma_dec_items_fail(dec_one, b2, (i - 1) as nat, (n - 1) as nat, s, r);
    }
}

pub open spec fn enc_u64_seq(s: Seq<u64>) -> Seq<u8> {
    enc_u64(s.len() as u64) + enc_items(enc_u64_fn(), s)
}

pub open spec fn dec_u64_seq(b: Seq<u8>) -> Option<(Seq<u64>, Seq<u8>)> {
    match dec_u64(b) {
        None => None,
        Some((n, b2)) => dec_items(dec_u64_fn(), b2, n as nat),
    }
}

pub proof fn lemma_dec_enc_u64_seq(s: Seq<u64>, rest: Seq<u8>)
    requires
        s.len() <= u64::MAX,
    ensures
        dec_u64_seq(enc_u64_seq(s) + rest) == Some((s, rest)),
{
    let e_items = enc_items(enc_u64_fn(), s);
    vstd::seq_lib::lemma_concat_associative(enc_u64(s.len() as u64), e_items, rest);
    lemma_dec_enc_u64(s.len() as u64, e_items + rest);
    assert forall|x: u64, r: Seq<u8>| #[trigger] dec_u64_fn()(enc_u64_fn()(x) + r) == Some(
        (x, r),
    ) by {
        lemma_dec_enc_u64(x, r);
    }
    lemma_dec_enc_items(enc_u64_fn(), dec_u64_fn(), s, rest);
    assert((s.len() as u64) as nat == s.len());
}

pub fn write_u64_seq(out: &mut Vec<u8>, v: &Vec<u64>)
    ensures
        final(out)@ == old(out)@ + enc_u64_seq(v@),
{
    let ghost base = out@;
    let n: u64 = v.len() as u64;
    write_u64(out, n);
    proof {
        assert(enc_items(enc_u64_fn(), v@.take(0)) == Seq::<u8>::empty());
        assert(base + enc_u64(n) + Seq::<u8>::empty() =~= base + enc_u64(n));
    }
    let mut i: usize = 0;
    while i < v.len()
        invariant
            i <= v@.len(),
            v@.len() <= u64::MAX,
            n == v@.len() as u64,
            out@ == base + enc_u64(n) + enc_items(enc_u64_fn(), v@.take(i as int)),
        decreases v@.len() - i,
    {
        let ghost prefix = v@.take(i as int);
        write_u64(out, v[i]);
        proof {
            assert(v@.take(i as int + 1) =~= prefix.push(v@[i as int]));
            lemma_enc_items_push(enc_u64_fn(), prefix, v@[i as int]);
            vstd::seq_lib::lemma_concat_associative(
                base + enc_u64(n),
                enc_items(enc_u64_fn(), prefix),
                enc_u64(v@[i as int]),
            );
        }
        i = i + 1;
    }
    proof {
        assert(v@.take(v@.len() as int) =~= v@);
        vstd::seq_lib::lemma_concat_associative(base, enc_u64(n), enc_items(enc_u64_fn(), v@));
    }
}

pub fn read_u64_seq(bytes: &Vec<u8>, pos: usize) -> (r: Option<(Vec<u64>, usize)>)
    requires
        pos <= bytes@.len(),
    ensures
        match r {
            Some(v) => dec_u64_seq(bytes@.skip(pos as int)) == Some(
                (v.0@, bytes@.skip(v.1 as int)),
            ) && pos <= v.1 <= bytes@.len(),
            None => dec_u64_seq(bytes@.skip(pos as int)) is None,
        },
{
    match read_u64(bytes, pos) {
        None => None,
        Some((n, start)) => {
            let mut items: Vec<u64> = Vec::new();
            let mut p = start;
            let mut i: u64 = 0;
            while i < n
                invariant
                    i <= n,
                    pos <= start <= p <= bytes@.len(),
                    dec_u64(bytes@.skip(pos as int)) == Some((n, bytes@.skip(start as int))),
                    dec_items(dec_u64_fn(), bytes@.skip(start as int), i as nat) == Some(
                        (items@, bytes@.skip(p as int)),
                    ),
                decreases n - i,
            {
                match read_u64(bytes, p) {
                    None => {
                        proof {
                            lemma_dec_items_fail(
                                dec_u64_fn(),
                                bytes@.skip(start as int),
                                i as nat,
                                n as nat,
                                items@,
                                bytes@.skip(p as int),
                            );
                        }
                        return None;
                    },
                    Some((x, p2)) => {
                        proof {
                            lemma_dec_items_snoc(
                                dec_u64_fn(),
                                bytes@.skip(start as int),
                                i as nat,
                                items@,
                                bytes@.skip(p as int),
                                x,
                                bytes@.skip(p2 as int),
                            );
                        }
                        items.push(x);
                        p = p2;
                        i = i + 1;
                    },
                }
            }
            Some((items, p))
        },
    }
}

pub open spec fn enc_viewport_seq(s: Seq<ViewportEntry>) -> Seq<u8> {
    enc_u64(s.len() as u64) + enc_items(enc_viewport_entry_fn(), s)
}

pub open spec fn dec_viewport_seq(b: Seq<u8>) -> Option<(Seq<ViewportEntry>, Seq<u8>)> {
    match dec_u64(b) {
        None => None,
        Some((n, b2)) => dec_items(dec_viewport_entry_fn(), b2, n as nat),
    }
}

pub proof fn lemma_dec_enc_viewport_seq(s: Seq<ViewportEntry>, rest: Seq<u8>)
    requires
        s.len() <= u64::MAX,
    ensures
        dec_viewport_seq(enc_viewport_seq(s) + rest) == Some((s, rest)),
{
    let e_items = enc_items(enc_viewport_entry_fn(), s);
    vstd::seq_lib::lemma_concat_associative(enc_u64(s.len() as u64), e_items, rest);
    lemma_dec_enc_u64(s.len() as u64, e_items + rest);
    assert forall|x: ViewportEntry, r: Seq<u8>| #[trigger] dec_viewport_entry_fn()(
        enc_viewport_entry_fn()(x) + r,
    ) == Some((x, r)) by {
        lemma_dec_enc_viewport_entry(x, r);
    }
    lemma_dec_enc_items(enc_viewport_entry_fn(), dec_viewport_entry_fn(), s, rest);
    assert((s.len() as u64) as nat == s.len());
}

pub fn write_viewport_seq(out: &mut Vec<u8>, v: &Vec<ViewportEntry>)
    ensures
        final(out)@ == old(out)@ + enc_viewport_seq(v@),
{
    let ghost base = out@;
    let n: u64 = v.len() as u64;
    write_u64(out, n);
    proof {
        assert(enc_items(enc_viewport_entry_fn(), v@.take(0)) == Seq::<u8>::empty());
        assert(base + enc_u64(n) + Seq::<u8>::empty() =~= base + enc_u64(n));
    }
    let mut i: usize = 0;
    while i < v.len()
        invariant
            i <= v@.len(),
            v@.len() <= u64::MAX,
            n == v@.len() as u64,
            out@ == base + enc_u64(n) + enc_items(enc_viewport_entry_fn(), v@.take(i as int)),
        decreases v@.len() - i,
    {
        let ghost prefix = v@.take(i as int);
        write_viewport_entry(out, &v[i]);
        proof {
            assert(v@.take(i as int + 1) =~= prefix.push(v@[i as int]));
            lemma_enc_items_push(enc_viewport_entry_fn(), prefix, v@[i as int]);
            vstd::seq_lib::lemma_concat_associative(
                base + enc_u64(n),
                enc_items(enc_viewport_entry_fn(), prefix),
                enc_viewport_entry(v@[i as int]),
            );
        }
        i = i + 1;
    }
    proof {
        assert(v@.take(v@.len() as int) =~= v@);
        vstd::seq_lib::lemma_concat_associative(
            base,
            enc_u64(n),
            enc_items(enc_viewport_entry_fn(), v@),
        );
    }
}

pub fn read_viewport_seq(bytes: &Vec<u8>, pos: usize) -> (r: Option<(Vec<ViewportEntry>, usize)>)
    requires
        pos <= bytes@.len(),
    ensures
        match r {
            Some(v) => dec_viewport_seq(bytes@.skip(pos as int)) == Some(
                (v.0@, bytes@.skip(v.1 as int)),
            ) && pos <= v.1 <= bytes@.len(),
            None => dec_viewport_seq(bytes@.skip(pos as int)) is None,
        },
{
    match read_u64(bytes, pos) {
        None => None,
        Some((n, start)) => {
            let mut items: Vec<ViewportEntry> = Vec::new();
            let mut p = start;
            let mut i: u64 = 0;
            while i < n
                invariant
                    i <= n,
                    pos <= start <= p <= bytes@.len(),
                    dec_u64(bytes@.skip(pos as int)) == Some((n, bytes@.skip(start as int))),
                    dec_items(dec_viewport_entry_fn(), bytes@.skip(start as int), i as nat)
                        == Some((items@, bytes@.skip(p as int))),
                decreases n - i,
            {
                match read_viewport_entry(bytes, p) {
                    None => {
                        proof {
                            lemma_dec_items_fail(
                                dec_viewport_entry_fn(),
                                bytes@.skip(start as int),
                                i as nat,
                                n as nat,
                                items@,
                                bytes@.skip(p as int),
                            );
                        }
                        return None;
                    },
                    Some((x, p2)) => {
                        proof {
                            lemma_dec_items_snoc(
                                dec_viewport_entry_fn(),
                                bytes@.skip(start as int),
                                i as nat,
                                items@,
                                bytes@.skip(p as int),
                                x,
                                bytes@.skip(p2 as int),
                            );
                        }
                        items.push(x);
                        p = p2;
                        i = i + 1;
                    },
                }
            }
            Some((items, p))
        },
    }
}

pub open spec fn enc_animation_seq(s: Seq<AnimationEntry>) -> Seq<u8> {
    enc_u64(s.len() as u64) + enc_items(enc_animation_entry_fn(), s)
}

pub open spec fn dec_animation_seq(b: Seq<u8>) -> Option<(Seq<AnimationEntry>, Seq<u8>)> {
    match dec_u64(b) {
        None => None,
        Some((n, b2)) => dec_items(dec_animation_entry_fn(), b2, n as nat),
    }
}

pub proof fn lemma_dec_enc_animation_seq(s: Seq<AnimationEntry>, rest: Seq<u8>)
    requires
        s.len() <= u64::MAX,
    ensures
        dec_animation_seq(enc_animation_seq(s) + rest) == Some((s, rest)),
{
    let e_items = enc_items(enc_animation_entry_fn(), s);
    vstd::seq_lib::lemma_concat_associative(enc_u64(s.len() as u64), e_items, rest);
    lemma_dec_enc_u64(s.len() as u64, e_items + rest);
    assert forall|x: AnimationEntry, r: Seq<u8>| #[trigger] dec_animation_entry_fn()(
        enc_animation_entry_fn()(x) + r,
    ) == Some((x, r)) by {
        lemma_dec_enc_animation_entry(x, r);
    }
    lemma_dec_enc_items(enc_animation_entry_fn(), dec_animation_entry_fn(), s, rest);
    assert((s.len() as u64) as nat == s.len());
}

pub fn write_animation_seq(out: &mut Vec<u8>, v: &Vec<AnimationEntry>)
    ensures
        final(out)@ == old(out)@ + enc_animation_seq(v@),
{
    let ghost base = out@;
    let n: u64 = v.len() as u64;
    write_u64(out, n);
    proof {
        assert(enc_items(enc_animation_entry_fn(), v@.take(0)) == Seq::<u8>::empty());
        assert(base + enc_u64(n) + Seq::<u8>::empty() =~= base + enc_u64(n));
    }
    let mut i: usize = 0;
    while i < v.len()
        invariant
            i <= v@.len(),
            v@.len() <= u64::MAX,
            n == v@.len() as u64,
            out@ == base + enc_u64(n) + enc_items(enc_animation_entry_fn(), v@.take(i as int)),
        decreases v@.len() - i,
    {
        let ghost prefix = v@.take(i as int);
        write_animation_entry(out, &v[i]);
        proof {
            assert(v@.take(i as int + 1) =~= prefix.push(v@[i as int]));
            lemma_enc_items_push(enc_animation_entry_fn(), prefix, v@[i as int]);
            vstd::seq_lib::lemma_concat_associative(
                base + enc_u64(n),
                enc_items(enc_animation_entry_fn(), prefix),
                enc_animation_entry(v@[i as int]),
            );
        }
        i = i + 1;
    }
    proof {
        assert(v@.take(v@.len() as int) =~= v@);
        vstd::seq_lib::lemma_concat_associative(
            base,
            enc_u64(n),
            enc_items(enc_animation_entry_fn(), v@),
        );
    }
}

pub fn read_animation_seq(bytes: &Vec<u8>, pos: usize) -> (r: Option<(Vec<AnimationEntry>, usize)>)
    requires
        pos <= bytes@.len(),
    ensures
        match r {
            Some(v) => dec_animation_seq(bytes@.skip(pos as int)) == Some(
                (v.0@, bytes@.skip(v.1 as int)),
            ) && pos <= v.1 <= bytes@.len(),
            None => dec_animation_seq(bytes@.skip(pos as int)) is None,
        },
{
    match read_u64(bytes, pos) {
        None => None,
        Some((n, start)) => {
            let mut items: Vec<AnimationEntry> = Vec::new();
            let mut p = start;
            let mut i: u64 = 0;
            while i < n
                invariant
                    i <= n,
                    pos <= start <= p <= bytes@.len(),
                    dec_u64(bytes@.skip(pos as int)) == Some((n, bytes@.skip(start as int))),
                    dec_items(dec_animation_entry_fn(), bytes@.skip(start as int), i as nat)
                        == Some((items@, bytes@.skip(p as int))),
                decreases n - i,
            {
                match read_animation_entry(bytes, p) {
                    None => {
                        proof {
                            lemma_dec_items_fail(
                                dec_animation_entry_fn(),
                                bytes@.skip(start as int),
                                i as nat,
                                n as nat,
                                items@,
                                bytes@.skip(p as int),
                            );
                        }
                        return None;
                    },
                    Some((x, p2)) => {
                        proof {
                            lemma_dec_items_snoc(
                                dec_animation_entry_fn(),
                                bytes@.skip(start as int),
                                i as nat,
                                items@,
                                bytes@.skip(p as int),
                                x,
                                bytes@.skip(p2 as int),
                            );
                        }
                        items.push(x);
                        p = p2;
                        i = i + 1;
                    },
                }
            }
            Some((items, p))
        },
    }
}

} // verus!
