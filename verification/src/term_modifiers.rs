//! What the attributes written between two styled spans do to the
//! terminal's text modifiers.
use vstd::prelude::*;
use crate::insert_history::{
    has, modifier_diff_attrs, opt, Attribute, BOLD, CROSSED_OUT, DIM, ITALIC, RAPID_BLINK, REVERSED,
    SLOW_BLINK, UNDERLINED,
};

verus! {

/// The text modifiers a terminal has turned on.
pub struct TermMods {
    pub bold: bool,
    pub dim: bool,
    pub italic: bool,
    pub underlined: bool,
    pub slow_blink: bool,
    pub rapid_blink: bool,
    pub reversed: bool,
    pub crossed_out: bool,
}

/// The terminal modifiers a style's modifier bits ask for (hidden aside).
pub open spec fn mods_of(m: u16) -> TermMods {
    TermMods {
        bold: m & 1u16 == 1u16,
        dim: m & 2u16 == 2u16,
        italic: m & 4u16 == 4u16,
        underlined: m & 8u16 == 8u16,
        slow_blink: m & 16u16 == 16u16,
        rapid_blink: m & 32u16 == 32u16,
        reversed: m & 64u16 == 64u16,
        crossed_out: m & 256u16 == 256u16,
    }
}

/// What the terminal does on an attribute (SGR semantics): each attribute
/// turns its modifier on; normal intensity ends both bold and dim, no-blink
/// ends both blinks, the other endings end their own modifier; reset ends
/// all.
pub open spec fn apply_attr(t: TermMods, a: Attribute) -> TermMods {
    match a {
        Attribute::Reset => TermMods {
            bold: false,
            dim: false,
            italic: false,
            underlined: false,
            slow_blink: false,
            rapid_blink: false,
            reversed: false,
            crossed_out: false,
        },
        Attribute::Bold => TermMods { bold: true, ..t },
        Attribute::Dim => TermMods { dim: true, ..t },
        Attribute::Italic => TermMods { italic: true, ..t },
        Attribute::Underlined => TermMods { underlined: true, ..t },
        Attribute::SlowBlink => TermMods { slow_blink: true, ..t },
        Attribute::RapidBlink => TermMods { rapid_blink: true, ..t },
        Attribute::Reverse => TermMods { reversed: true, ..t },
        Attribute::CrossedOut => TermMods { crossed_out: true, ..t },
        Attribute::NormalIntensity => TermMods { bold: false, dim: false, ..t },
        Attribute::NoItalic => TermMods { italic: false, ..t },
        Attribute::NoUnderline => TermMods { underlined: false, ..t },
        Attribute::NoBlink => TermMods { slow_blink: false, rapid_blink: false, ..t },
        Attribute::NoReverse => TermMods { reversed: false, ..t },
        Attribute::NotCrossedOut => TermMods { crossed_out: false, ..t },
    }
}

/// The terminal's modifiers after the attributes, in order.
pub open spec fn apply_attrs(t: TermMods, s: Seq<Attribute>) -> TermMods
    decreases s.len(),
{
    if s.len() == 0 {
        t
    } else {
        apply_attr(apply_attrs(t, s.drop_last()), s.last())
    }
}

proof fn lemma_apply_all_concat(t: TermMods, a: Seq<Attribute>, b: Seq<Attribute>)
    ensures
        apply_attrs(t, a + b) == apply_attrs(apply_attrs(t, a), b),
    decreases b.len(),
{
    if b.len() == 0 {
        assert(a + b =~= a);
    } else {
        lemma_apply_all_concat(t, a, b.drop_last());
        assert((a + b).drop_last() =~= a + b.drop_last());
        assert((a + b).last() == b.last());
    }
}

proof fn lemma_apply_opt(t: TermMods, b: bool, a: Attribute)
    ensures
        apply_attrs(t, opt(b, a)) == if b {
            apply_attr(t, a)
        } else {
            t
        },
{
    if b {
        assert(opt(b, a).drop_last() =~= Seq::<Attribute>::empty());
        assert(apply_attrs(t, Seq::<Attribute>::empty()) == t);
        assert(opt(b, a).last() == a);
        assert(opt(b, a).len() == 1);
    } else {
        assert(opt(b, a).len() == 0);
    }
}

proof fn lemma_bits(from: u16, to: u16)
    ensures
        ((from & !to) & 1u16 == 1u16) == (from & 1u16 == 1u16 && to & 1u16 != 1u16),
        ((to & !from) & 1u16 == 1u16) == (to & 1u16 == 1u16 && from & 1u16 != 1u16),
        ((from & !to) & 2u16 == 2u16) == (from & 2u16 == 2u16 && to & 2u16 != 2u16),
        ((to & !from) & 2u16 == 2u16) == (to & 2u16 == 2u16 && from & 2u16 != 2u16),
        ((from & !to) & 4u16 == 4u16) == (from & 4u16 == 4u16 && to & 4u16 != 4u16),
        ((to & !from) & 4u16 == 4u16) == (to & 4u16 == 4u16 && from & 4u16 != 4u16),
        ((from & !to) & 8u16 == 8u16) == (from & 8u16 == 8u16 && to & 8u16 != 8u16),
        ((to & !from) & 8u16 == 8u16) == (to & 8u16 == 8u16 && from & 8u16 != 8u16),
        ((from & !to) & 16u16 == 16u16) == (from & 16u16 == 16u16 && to & 16u16 != 16u16),
        ((to & !from) & 16u16 == 16u16) == (to & 16u16 == 16u16 && from & 16u16 != 16u16),
        ((from & !to) & 32u16 == 32u16) == (from & 32u16 == 32u16 && to & 32u16 != 32u16),
        ((to & !from) & 32u16 == 32u16) == (to & 32u16 == 32u16 && from & 32u16 != 32u16),
        ((from & !to) & 64u16 == 64u16) == (from & 64u16 == 64u16 && to & 64u16 != 64u16),
        ((to & !from) & 64u16 == 64u16) == (to & 64u16 == 64u16 && from & 64u16 != 64u16),
        ((from & !to) & 256u16 == 256u16) == (from & 256u16 == 256u16 && to & 256u16 != 256u16),
        ((to & !from) & 256u16 == 256u16) == (to & 256u16 == 256u16 && from & 256u16 != 256u16),
{
    assert(
((from & !to) & 1u16 == 1u16) == (from & 1u16 == 1u16 && to & 1u16 != 1u16) &&
((to & !from) & 1u16 == 1u16) == (to & 1u16 == 1u16 && from & 1u16 != 1u16) &&
((from & !to) & 2u16 == 2u16) == (from & 2u16 == 2u16 && to & 2u16 != 2u16) &&
((to & !from) & 2u16 == 2u16) == (to & 2u16 == 2u16 && from & 2u16 != 2u16) &&
((from & !to) & 4u16 == 4u16) == (from & 4u16 == 4u16 && to & 4u16 != 4u16) &&
((to & !from) & 4u16 == 4u16) == (to & 4u16 == 4u16 && from & 4u16 != 4u16) &&
((from & !to) & 8u16 == 8u16) == (from & 8u16 == 8u16 && to & 8u16 != 8u16) &&
((to & !from) & 8u16 == 8u16) == (to & 8u16 == 8u16 && from & 8u16 != 8u16) &&
((from & !to) & 16u16 == 16u16) == (from & 16u16 == 16u16 && to & 16u16 != 16u16) &&
((to & !from) & 16u16 == 16u16) == (to & 16u16 == 16u16 && from & 16u16 != 16u16) &&
((from & !to) & 32u16 == 32u16) == (from & 32u16 == 32u16 && to & 32u16 != 32u16) &&
((to & !from) & 32u16 == 32u16) == (to & 32u16 == 32u16 && from & 32u16 != 32u16) &&
((from & !to) & 64u16 == 64u16) == (from & 64u16 == 64u16 && to & 64u16 != 64u16) &&
((to & !from) & 64u16 == 64u16) == (to & 64u16 == 64u16 && from & 64u16 != 64u16) &&
((from & !to) & 256u16 == 256u16) == (from & 256u16 == 256u16 && to & 256u16 != 256u16) &&
((to & !from) & 256u16 == 256u16) == (to & 256u16 == 256u16 && from & 256u16 != 256u16)
    ) by (bit_vector);
}

/// One attribute, when `b` holds.
pub open spec fn step(t: TermMods, b: bool, a: Attribute) -> TermMods {
    if b {
        apply_attr(t, a)
    } else {
        t
    }
}

/// The endings, in the order they are written.
pub open spec fn removal_attrs(rr: bool, rb: bool, rbd: bool, ri: bool, ru: bool, rd: bool, rc: bool, rbl: bool) -> Seq<Attribute> {
    opt(rr, Attribute::NoReverse) + opt(rb, Attribute::NormalIntensity) + opt(rbd, Attribute::Dim) + opt(ri, Attribute::NoItalic) + opt(ru, Attribute::NoUnderline) + opt(rd, Attribute::NormalIntensity) + opt(rc, Attribute::NotCrossedOut) + opt(rbl, Attribute::NoBlink)
}

/// `x` followed by the starts, in the order they are written.
pub open spec fn with_additions(x: Seq<Attribute>, ar: bool, ab: bool, ai: bool, au: bool, ad: bool, ac: bool, asb: bool, arb: bool) -> Seq<Attribute> {
    x + opt(ar, Attribute::Reverse) + opt(ab, Attribute::Bold) + opt(ai, Attribute::Italic) + opt(au, Attribute::Underlined) + opt(ad, Attribute::Dim) + opt(ac, Attribute::CrossedOut) + opt(asb, Attribute::SlowBlink) + opt(arb, Attribute::RapidBlink)
}

proof fn lemma_removals(t: TermMods, rr: bool, rb: bool, rbd: bool, ri: bool, ru: bool, rd: bool, rc: bool, rbl: bool)
    ensures
        apply_attrs(t, removal_attrs(rr, rb, rbd, ri, ru, rd, rc, rbl)) == (TermMods {
            bold: t.bold && !rb && !rd,
            dim: !rd && (if rb { rbd } else { t.dim || rbd }),
            italic: t.italic && !ri,
            underlined: t.underlined && !ru,
            slow_blink: t.slow_blink && !rbl,
            rapid_blink: t.rapid_blink && !rbl,
            reversed: t.reversed && !rr,
            crossed_out: t.crossed_out && !rc,
        }),
{
    let t0 = apply_attrs(t, Seq::<Attribute>::empty());
    let p0 = Seq::<Attribute>::empty();
    let p1 = p0 + opt(rr, Attribute::NoReverse);
    lemma_apply_all_concat(t, p0, opt(rr, Attribute::NoReverse));
    lemma_apply_opt(t0, rr, Attribute::NoReverse);
    let t1 = step(t0, rr, Attribute::NoReverse);
    let p2 = p1 + opt(rb, Attribute::NormalIntensity);
    lemma_apply_all_concat(t, p1, opt(rb, Attribute::NormalIntensity));
    lemma_apply_opt(t1, rb, Attribute::NormalIntensity);
    let t2 = step(t1, rb, Attribute::NormalIntensity);
    let p3 = p2 + opt(rbd, Attribute::Dim);
    lemma_apply_all_concat(t, p2, opt(rbd, Attribute::Dim));
    lemma_apply_opt(t2, rbd, Attribute::Dim);
    let t3 = step(t2, rbd, Attribute::Dim);
    let p4 = p3 + opt(ri, Attribute::NoItalic);
    lemma_apply_all_concat(t, p3, opt(ri, Attribute::NoItalic));
    lemma_apply_opt(t3, ri, Attribute::NoItalic);
    let t4 = step(t3, ri, Attribute::NoItalic);
    let p5 = p4 + opt(ru, Attribute::NoUnderline);
    lemma_apply_all_concat(t, p4, opt(ru, Attribute::NoUnderline));
    lemma_apply_opt(t4, ru, Attribute::NoUnderline);
    let t5 = step(t4, ru, Attribute::NoUnderline);
    let p6 = p5 + opt(rd, Attribute::NormalIntensity);
    lemma_apply_all_concat(t, p5, opt(rd, Attribute::NormalIntensity));
    lemma_apply_opt(t5, rd, Attribute::NormalIntensity);
    let t6 = step(t5, rd, Attribute::NormalIntensity);
    let p7 = p6 + opt(rc, Attribute::NotCrossedOut);
    lemma_apply_all_concat(t, p6, opt(rc, Attribute::NotCrossedOut));
    lemma_apply_opt(t6, rc, Attribute::NotCrossedOut);
    let t7 = step(t6, rc, Attribute::NotCrossedOut);
    let p8 = p7 + opt(rbl, Attribute::NoBlink);
    lemma_apply_all_concat(t, p7, opt(rbl, Attribute::NoBlink));
    lemma_apply_opt(t7, rbl, Attribute::NoBlink);
    let t8 = step(t7, rbl, Attribute::NoBlink);
    assert(p8 =~= removal_attrs(rr, rb, rbd, ri, ru, rd, rc, rbl));
}

proof fn lemma_additions(t: TermMods, x: Seq<Attribute>, ar: bool, ab: bool, ai: bool, au: bool, ad: bool, ac: bool, asb: bool, arb: bool)
    ensures
        apply_attrs(t, with_additions(x, ar, ab, ai, au, ad, ac, asb, arb)) == (TermMods {
            bold: apply_attrs(t, x).bold || ab,
            dim: apply_attrs(t, x).dim || ad,
            italic: apply_attrs(t, x).italic || ai,
            underlined: apply_attrs(t, x).underlined || au,
            slow_blink: apply_attrs(t, x).slow_blink || asb,
            rapid_blink: apply_attrs(t, x).rapid_blink || arb,
            reversed: apply_attrs(t, x).reversed || ar,
            crossed_out: apply_attrs(t, x).crossed_out || ac,
        }),
{
    let t0 = apply_attrs(t, x);
    let p0 = x;
    let p1 = p0 + opt(ar, Attribute::Reverse);
    lemma_apply_all_concat(t, p0, opt(ar, Attribute::Reverse));
    lemma_apply_opt(t0, ar, Attribute::Reverse);
    let t1 = step(t0, ar, Attribute::Reverse);
    let p2 = p1 + opt(ab, Attribute::Bold);
    lemma_apply_all_concat(t, p1, opt(ab, Attribute::Bold));
    lemma_apply_opt(t1, ab, Attribute::Bold);
    let t2 = step(t1, ab, Attribute::Bold);
    let p3 = p2 + opt(ai, Attribute::Italic);
    lemma_apply_all_concat(t, p2, opt(ai, Attribute::Italic));
    lemma_apply_opt(t2, ai, Attribute::Italic);
    let t3 = step(t2, ai, Attribute::Italic);
    let p4 = p3 + opt(au, Attribute::Underlined);
    lemma_apply_all_concat(t, p3, opt(au, Attribute::Underlined));
    lemma_apply_opt(t3, au, Attribute::Underlined);
    let t4 = step(t3, au, Attribute::Underlined);
    let p5 = p4 + opt(ad, Attribute::Dim);
    lemma_apply_all_concat(t, p4, opt(ad, Attribute::Dim));
    lemma_apply_opt(t4, ad, Attribute::Dim);
    let t5 = step(t4, ad, Attribute::Dim);
    let p6 = p5 + opt(ac, Attribute::CrossedOut);
    lemma_apply_all_concat(t, p5, opt(ac, Attribute::CrossedOut));
    lemma_apply_opt(t5, ac, Attribute::CrossedOut);
    let t6 = step(t5, ac, Attribute::CrossedOut);
    let p7 = p6 + opt(asb, Attribute::SlowBlink);
    lemma_apply_all_concat(t, p6, opt(asb, Attribute::SlowBlink));
    lemma_apply_opt(t6, asb, Attribute::SlowBlink);
    let t7 = step(t6, asb, Attribute::SlowBlink);
    let p8 = p7 + opt(arb, Attribute::RapidBlink);
    lemma_apply_all_concat(t, p7, opt(arb, Attribute::RapidBlink));
    lemma_apply_opt(t7, arb, Attribute::RapidBlink);
    let t8 = step(t7, arb, Attribute::RapidBlink);
}

#[verifier::rlimit(100)]
#[verifier::spinoff_prover]
pub proof fn law_modifier_diff_reaches_target(from: u16, to: u16)
    requires
        !(mods_of(from).dim && !mods_of(to).dim && mods_of(from).bold && mods_of(to).bold),
        !(mods_of(from).slow_blink && !mods_of(to).slow_blink && mods_of(to).rapid_blink),
        !(mods_of(from).rapid_blink && !mods_of(to).rapid_blink && mods_of(to).slow_blink),
    ensures
        apply_attrs(mods_of(from), modifier_diff_attrs(from, to)) == mods_of(to),
{
    lemma_bits(from, to);
    let removed = from & !to;
    let added = to & !from;
    let f = mods_of(from);
    let g = mods_of(to);
    let rr = has(removed, REVERSED);
    let rb = has(removed, BOLD);
    let rbd = has(removed, BOLD) && has(to, DIM);
    let ri = has(removed, ITALIC);
    let ru = has(removed, UNDERLINED);
    let rd = has(removed, DIM);
    let rc = has(removed, CROSSED_OUT);
    let rbl = has(removed, SLOW_BLINK) || has(removed, RAPID_BLINK);
    let ar = has(added, REVERSED);
    let ab = has(added, BOLD);
    let ai = has(added, ITALIC);
    let au = has(added, UNDERLINED);
    let ad = has(added, DIM);
    let ac = has(added, CROSSED_OUT);
    let asb = has(added, SLOW_BLINK);
    let arb = has(added, RAPID_BLINK);
    assert(rr == (f.reversed && !g.reversed) && ar == (g.reversed && !f.reversed));
    assert(rb == (f.bold && !g.bold) && ab == (g.bold && !f.bold));
    assert(rd == (f.dim && !g.dim) && ad == (g.dim && !f.dim));
    assert(rbd == (f.bold && !g.bold && g.dim));
    assert(ri == (f.italic && !g.italic) && ai == (g.italic && !f.italic));
    assert(ru == (f.underlined && !g.underlined) && au == (g.underlined && !f.underlined));
    assert(rc == (f.crossed_out && !g.crossed_out) && ac == (g.crossed_out && !f.crossed_out));
    assert(asb == (g.slow_blink && !f.slow_blink) && arb == (g.rapid_blink && !f.rapid_blink));
    assert(rbl == ((f.slow_blink && !g.slow_blink) || (f.rapid_blink && !g.rapid_blink)));
    assert(modifier_diff_attrs(from, to) == with_additions(removal_attrs(rr, rb, rbd, ri, ru, rd, rc, rbl), ar, ab, ai, au, ad, ac, asb, arb));
    lemma_removals(f, rr, rb, rbd, ri, ru, rd, rc, rbl);
    lemma_additions(f, removal_attrs(rr, rb, rbd, ri, ru, rd, rc, rbl), ar, ab, ai, au, ad, ac, asb, arb);
}

} // verus!
