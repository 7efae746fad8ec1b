//! Placeholders in the composer text: a large paste is shown as
//! `[Pasted Content <n> chars]` and an attached image as
//! `[image <w>x<h> <format>]`. The text of a paste is put back when the
//! message is submitted; an image placeholder is removed from it.
use vstd::prelude::*;
use crate::text::{
    chars_eq, chars_of, contains_chars, contains_seq, count_matches, count_matches_chars,
    replace_all, replace_all_chars, starts_with, starts_with_at,
};

verus! {

/// An image attached to the message being composed, shown in the text as
/// its placeholder.
#[derive(Debug, Clone, PartialEq)]
pub struct AttachedImage {
    pub placeholder: String,
    pub path: String,
}

/// The characters of the placeholders and texts of pending pastes.
pub open spec fn paste_view(v: Seq<(String, String)>) -> Seq<(Seq<char>, Seq<char>)> {
    v.map_values(|p: (String, String)| (p.0@, p.1@))
}

/// The placeholders and paths of attached images.
pub open spec fn image_view(v: Seq<AttachedImage>) -> Seq<(Seq<char>, Seq<char>)> {
    v.map_values(|im: AttachedImage| (im.placeholder@, im.path@))
}

/// Every placeholder is non-empty.
pub open spec fn placeholders_nonempty(v: Seq<(Seq<char>, Seq<char>)>) -> bool {
    forall|i: int| 0 <= i < v.len() ==> (#[trigger] v[i]).0.len() > 0
}

/// `text` with each pending paste's placeholder replaced by its text, the
/// pastes taken in order.
pub open spec fn expand_pastes(text: Seq<char>, pastes: Seq<(Seq<char>, Seq<char>)>) -> Seq<char>
    decreases pastes.len(),
{
    if pastes.len() == 0 {
        text
    } else {
        expand_pastes(replace_all(text, pastes[0].0, pastes[0].1), pastes.drop_first())
    }
}

/// `text` with the placeholder of every image removed.
pub open spec fn strip_images(text: Seq<char>, images: Seq<(Seq<char>, Seq<char>)>) -> Seq<char>
    decreases images.len(),
{
    if images.len() == 0 {
        text
    } else {
        strip_images(replace_all(text, images[0].0, Seq::empty()), images.drop_first())
    }
}

/// The pending pastes whose placeholder still occurs in `text`, in order.
pub open spec fn retained_pastes(
    pastes: Seq<(Seq<char>, Seq<char>)>,
    text: Seq<char>,
) -> Seq<(Seq<char>, Seq<char>)>
    decreases pastes.len(),
{
    if pastes.len() == 0 {
        pastes
    } else {
        let r = retained_pastes(pastes.drop_last(), text);
        if contains_seq(text, pastes.last().0) {
            r.push(pastes.last())
        } else {
            r
        }
    }
}

/// Number of elements of `s` whose placeholder is `ph`.
pub open spec fn count_ph(s: Seq<(Seq<char>, Seq<char>)>, ph: Seq<char>) -> nat
    decreases s.len(),
{
    if s.len() == 0 {
        0
    } else {
        count_ph(s.drop_last(), ph) + if s.last().0 == ph {
            1nat
        } else {
            0nat
        }
    }
}

/// The attached images that still have a placeholder in `text`: for each
/// placeholder, as many of the images that share it as it occurs in the
/// text, the earliest first.
pub open spec fn retained_images(
    images: Seq<(Seq<char>, Seq<char>)>,
    text: Seq<char>,
) -> Seq<(Seq<char>, Seq<char>)>
    decreases images.len(),
{
    if images.len() == 0 {
        images
    } else {
        let r = retained_images(images.drop_last(), text);
        let ph = images.last().0;
        if count_ph(images.drop_last(), ph) < count_matches(text, ph) {
            r.push(images.last())
        } else {
            r
        }
    }
}

/// `ph` ends exactly at position `p` of `s`.
pub open spec fn ends_at(s: Seq<char>, p: int, ph: Seq<char>) -> bool {
    ph.len() <= p <= s.len() && s.subrange(p - ph.len(), p) == ph
}

/// `ph` starts exactly at position `p` of `s`.
pub open spec fn starts_at(s: Seq<char>, p: int, ph: Seq<char>) -> bool {
    0 <= p && p + ph.len() <= s.len() && s.subrange(p, p + ph.len()) == ph
}

/// The placeholders of a list of (placeholder, payload) pairs.
pub open spec fn phs_of(v: Seq<(Seq<char>, Seq<char>)>) -> Seq<Seq<char>> {
    v.map_values(|x: (Seq<char>, Seq<char>)| x.0)
}

/// The first index at or after `i` whose placeholder ends at `p`.
pub open spec fn first_ending(s: Seq<char>, p: int, v: Seq<Seq<char>>, i: int) -> Option<int>
    decreases v.len() - i,
{
    if i < 0 || i >= v.len() {
        None
    } else if ends_at(s, p, v[i]) {
        Some(i)
    } else {
        first_ending(s, p, v, i + 1)
    }
}

/// The first index at or after `i` whose placeholder starts at `p`.
pub open spec fn first_starting(s: Seq<char>, p: int, v: Seq<Seq<char>>, i: int) -> Option<int>
    decreases v.len() - i,
{
    if i < 0 || i >= v.len() {
        None
    } else if starts_at(s, p, v[i]) {
        Some(i)
    } else {
        first_starting(s, p, v, i + 1)
    }
}

/// Index of the `n`-th (from 0) placeholder at or after `i` equal to `ph`.
pub open spec fn nth_with(v: Seq<Seq<char>>, ph: Seq<char>, n: nat, i: int) -> Option<int>
    decreases v.len() - i,
{
    if i < 0 || i >= v.len() {
        None
    } else if v[i] == ph {
        if n == 0 {
            Some(i)
        } else {
            nth_with(v, ph, (n - 1) as nat, i + 1)
        }
    } else {
        nth_with(v, ph, n, i + 1)
    }
}

/// Whether the left-to-right search for non-overlapping occurrences of a
/// non-empty `pat` in `s` ends exactly at the end of `s` (trivially so for
/// an empty `s`).
pub open spec fn occurrences_reach_end(s: Seq<char>, pat: Seq<char>) -> bool
    decreases s.len(),
{
    if s.len() == 0 {
        true
    } else if pat.len() == 0 || s.len() < pat.len() {
        false
    } else if starts_with(s, pat) {
        occurrences_reach_end(s.skip(pat.len() as int), pat)
    } else {
        occurrences_reach_end(s.drop_first(), pat)
    }
}

/// What Backspace removes as a whole when the cursor touches a
/// placeholder: the range of the text and the image or paste it stood for.
#[derive(Debug, PartialEq, Eq)]
pub enum Removal {
    /// Remove `[start, end)` and the image at `index`.
    Image { start: usize, end: usize, index: usize },
    /// Remove `[start, end)` and every pending paste with the placeholder
    /// of the paste at `index`.
    Paste { start: usize, end: usize, index: usize },
}

/// The image that a placeholder occurrence stands for: among the images
/// that share the placeholder, the one whose rank equals the number of
/// occurrences of the placeholder before it in the text, else image `i`.
pub open spec fn image_for_occurrence(phs: Seq<Seq<char>>, i: int, before: Seq<char>) -> int {
    match nth_with(phs, phs[i], count_matches(before, phs[i]), 0) {
        Some(k) => k,
        None => i,
    }
}

/// The placeholder Backspace removes with the cursor at `p`, given the
/// placeholders of the attached images and of the pending pastes. First an
/// image placeholder that ends at the cursor, then one that starts there
/// (only when the occurrences of that placeholder before the cursor reach
/// the cursor exactly), then the same for paste placeholders.
pub open spec fn placeholder_removal(
    s: Seq<char>,
    p: int,
    images: Seq<Seq<char>>,
    pastes: Seq<Seq<char>>,
) -> Option<Removal> {
    match first_ending(s, p, images, 0) {
        Some(i) => Some(
            Removal::Image {
                start: (p - images[i].len()) as usize,
                end: p as usize,
                index: image_for_occurrence(images, i, s.take(p - images[i].len())) as usize,
            },
        ),
        None => {
            let from_images = match first_starting(s, p, images, 0) {
                Some(i) => if occurrences_reach_end(s.take(p), images[i]) {
                    Some(
                        Removal::Image {
                            start: p as usize,
                            end: (p + images[i].len()) as usize,
                            index: image_for_occurrence(images, i, s.take(p)) as usize,
                        },
                    )
                } else {
                    None
                },
                None => None,
            };
            if from_images is Some {
                from_images
            } else {
                match first_ending(s, p, pastes, 0) {
                    Some(j) => Some(
                        Removal::Paste {
                            start: (p - pastes[j].len()) as usize,
                            end: p as usize,
                            index: j as usize,
                        },
                    ),
                    None => match first_starting(s, p, pastes, 0) {
                        Some(j) => Some(
                            Removal::Paste {
                                start: p as usize,
                                end: (p + pastes[j].len()) as usize,
                                index: j as usize,
                            },
                        ),
                        None => None,
                    },
                }
            }
        },
    }
}

/// The pending pastes whose placeholder differs from `ph`, in order.
pub open spec fn pastes_without(
    pastes: Seq<(Seq<char>, Seq<char>)>,
    ph: Seq<char>,
) -> Seq<(Seq<char>, Seq<char>)>
    decreases pastes.len(),
{
    if pastes.len() == 0 {
        pastes
    } else {
        let r = pastes_without(pastes.drop_last(), ph);
        if pastes.last().0 != ph {
            r.push(pastes.last())
        } else {
            r
        }
    }
}

/// Copy of the pending pastes.
pub fn clone_pastes(v: &Vec<(String, String)>) -> (r: Vec<(String, String)>)
    ensures
        paste_view(r@) == paste_view(v@),
{
    let mut r: Vec<(String, String)> = Vec::new();
    let mut i: usize = 0;
    while i < v.len()
        invariant
            i <= v@.len(),
            paste_view(r@) == paste_view(v@.take(i as int)),
        decreases v.len() - i,
    {
        let p = (v[i].0.clone(), v[i].1.clone());
        let ghost old_r = r@;
        r.push(p);
        proof {
            let e = (v@[i as int].0@, v@[i as int].1@);
            assert(v@.take(i + 1) =~= v@.take(i as int).push(v@[i as int]));
            assert(paste_view(r@) =~= paste_view(old_r).push(e));
            assert(paste_view(v@.take(i + 1)) =~= paste_view(v@.take(i as int)).push(e));
        }
        i += 1;
    }
    assert(v@.take(v@.len() as int) =~= v@);
    r
}

/// Replace each pending paste's placeholder in `text` by its text.
pub fn expand_pastes_chars(text: Vec<char>, pastes: &Vec<(String, String)>) -> (r: Vec<char>)
    requires
        placeholders_nonempty(paste_view(pastes@)),
    ensures
        r@ == expand_pastes(text@, paste_view(pastes@)),
{
    let ghost pv = paste_view(pastes@);
    let mut t = text;
    let mut i: usize = 0;
    proof {
        assert(pv.skip(0) =~= pv);
    }
    while i < pastes.len()
        invariant
            pv == paste_view(pastes@),
            placeholders_nonempty(pv),
            i <= pastes@.len(),
            expand_pastes(t@, pv.skip(i as int)) == expand_pastes(text@, pv),
        decreases pastes.len() - i,
    {
        let ph = chars_of(pastes[i].0.as_str());
        let actual = chars_of(pastes[i].1.as_str());
        proof {
            assert(pv[i as int].0.len() > 0);
            assert(pv.skip(i as int).drop_first() =~= pv.skip(i + 1));
            assert(pv.skip(i as int)[0] == pv[i as int]);
        }
        t = replace_all_chars(&t, &ph, &actual);
        i += 1;
    }
    proof {
        assert(pv.skip(i as int) =~= Seq::<(Seq<char>, Seq<char>)>::empty());
    }
    t
}

/// Remove every image placeholder from `text`.
pub fn strip_image_placeholders(text: Vec<char>, images: &Vec<AttachedImage>) -> (r: Vec<char>)
    requires
        placeholders_nonempty(image_view(images@)),
    ensures
        r@ == strip_images(text@, image_view(images@)),
{
    let ghost iv = image_view(images@);
    let mut t = text;
    let mut i: usize = 0;
    let empty: Vec<char> = Vec::new();
    proof {
        assert(iv.skip(0) =~= iv);
    }
    while i < images.len()
        invariant
            iv == image_view(images@),
            placeholders_nonempty(iv),
            empty@ == Seq::<char>::empty(),
            i <= images@.len(),
            strip_images(t@, iv.skip(i as int)) == strip_images(text@, iv),
        decreases images.len() - i,
    {
        let ph = chars_of(images[i].placeholder.as_str());
        proof {
            assert(iv[i as int].0.len() > 0);
            assert(iv.skip(i as int).drop_first() =~= iv.skip(i + 1));
            assert(iv.skip(i as int)[0] == iv[i as int]);
        }
        t = replace_all_chars(&t, &ph, &empty);
        i += 1;
    }
    proof {
        assert(iv.skip(i as int) =~= Seq::<(Seq<char>, Seq<char>)>::empty());
    }
    t
}

/// Keep the pending pastes whose placeholder still occurs in `text`.
pub fn retain_pastes(pastes: &Vec<(String, String)>, text: &[char]) -> (r: Vec<(String, String)>)
    ensures
        paste_view(r@) == retained_pastes(paste_view(pastes@), text@),
{
    let mut r: Vec<(String, String)> = Vec::new();
    let mut i: usize = 0;
    while i < pastes.len()
        invariant
            i <= pastes@.len(),
            paste_view(r@) == retained_pastes(paste_view(pastes@.take(i as int)), text@),
        decreases pastes.len() - i,
    {
        let ph = chars_of(pastes[i].0.as_str());
        let keep = contains_chars(text, &ph);
        proof {
            assert(pastes@.take(i + 1) =~= pastes@.take(i as int).push(pastes@[i as int]));
            assert(paste_view(pastes@.take(i + 1)).drop_last() =~= paste_view(pastes@.take(i as int)));
            assert(paste_view(pastes@.take(i + 1)).last() == (pastes@[i as int].0@, pastes@[i as int].1@));
        }
        if keep {
            let p = (pastes[i].0.clone(), pastes[i].1.clone());
            r.push(p);
            proof {
                assert(paste_view(r@) =~= retained_pastes(paste_view(pastes@.take(i as int)), text@).push(
                    (pastes@[i as int].0@, pastes@[i as int].1@),
                ));
            }
        }
        i += 1;
    }
    assert(pastes@.take(pastes@.len() as int) =~= pastes@);
    r
}

/// Number of attached images before index `i` whose placeholder is `ph`.
fn count_placeholder(images: &Vec<AttachedImage>, i: usize, ph: &[char]) -> (r: usize)
    requires
        i <= images@.len(),
    ensures
        r == count_ph(image_view(images@).take(i as int), ph@),
{
    let mut k: usize = 0;
    let mut c: usize = 0;
    proof {
        assert(image_view(images@).take(0) =~= Seq::<(Seq<char>, Seq<char>)>::empty());
    }
    while k < i
        invariant
            i <= images@.len(),
            k <= i,
            c <= k,
            c == count_ph(image_view(images@).take(k as int), ph@),
        decreases i - k,
    {
        let q = chars_of(images[k].placeholder.as_str());
        let same = chars_eq(&q, ph);
        proof {
            let iv = image_view(images@);
            assert(iv.take(k + 1).drop_last() =~= iv.take(k as int));
            assert(iv.take(k + 1).last() == iv[k as int]);
        }
        if same {
            c += 1;
        }
        k += 1;
    }
    c
}

/// Keep the attached images that still have a placeholder in `text`.
pub fn retain_images(images: &Vec<AttachedImage>, text: &[char]) -> (r: Vec<AttachedImage>)
    ensures
        image_view(r@) == retained_images(image_view(images@), text@),
{
    let mut r: Vec<AttachedImage> = Vec::new();
    let mut i: usize = 0;
    while i < images.len()
        invariant
            i <= images@.len(),
            image_view(r@) == retained_images(image_view(images@.take(i as int)), text@),
        decreases images.len() - i,
    {
        let ph = chars_of(images[i].placeholder.as_str());
        let before = count_placeholder(images, i, &ph);
        let keep = if ph.len() == 0 {
            false
        } else {
            before < count_matches_chars(text, &ph)
        };
        proof {
            let iv = image_view(images@);
            assert(images@.take(i + 1) =~= images@.take(i as int).push(images@[i as int]));
            assert(image_view(images@.take(i + 1)).drop_last() =~= image_view(images@.take(i as int)));
            assert(image_view(images@.take(i as int)) =~= iv.take(i as int));
            assert(image_view(images@.take(i + 1)).last() == iv[i as int]);
            if ph@.len() == 0 {
                assert(count_matches(text@, ph@) == 0);
            }
        }
        if keep {
            let im = AttachedImage {
                placeholder: images[i].placeholder.clone(),
                path: images[i].path.clone(),
            };
            r.push(im);
            proof {
                assert(image_view(r@) =~= retained_images(image_view(images@.take(i as int)), text@).push(
                    image_view(images@)[i as int],
                ));
            }
        }
        i += 1;
    }
    assert(images@.take(images@.len() as int) =~= images@);
    r
}


/// The characters of each placeholder.
pub open spec fn vv(v: Seq<Vec<char>>) -> Seq<Seq<char>> {
    v.map_values(|c: Vec<char>| c@)
}

/// The placeholders of the attached images.
pub fn image_placeholders(images: &Vec<AttachedImage>) -> (r: Vec<Vec<char>>)
    ensures
        vv(r@) == phs_of(image_view(images@)),
{
    let mut r: Vec<Vec<char>> = Vec::new();
    let mut i: usize = 0;
    while i < images.len()
        invariant
            i <= images@.len(),
            vv(r@) == phs_of(image_view(images@.take(i as int))),
        decreases images.len() - i,
    {
        let c = chars_of(images[i].placeholder.as_str());
        let ghost old_r = r@;
        r.push(c);
        proof {
            assert(images@.take(i + 1) =~= images@.take(i as int).push(images@[i as int]));
            assert(vv(r@) =~= vv(old_r).push(images@[i as int].placeholder@));
            assert(phs_of(image_view(images@.take(i + 1))) =~= phs_of(image_view(images@.take(i as int))).push(
                images@[i as int].placeholder@,
            ));
        }
        i += 1;
    }
    assert(images@.take(images@.len() as int) =~= images@);
    r
}

/// The placeholders of the pending pastes.
pub fn paste_placeholders(pastes: &Vec<(String, String)>) -> (r: Vec<Vec<char>>)
    ensures
        vv(r@) == phs_of(paste_view(pastes@)),
{
    let mut r: Vec<Vec<char>> = Vec::new();
    let mut i: usize = 0;
    while i < pastes.len()
        invariant
            i <= pastes@.len(),
            vv(r@) == phs_of(paste_view(pastes@.take(i as int))),
        decreases pastes.len() - i,
    {
        let c = chars_of(pastes[i].0.as_str());
        let ghost old_r = r@;
        r.push(c);
        proof {
            assert(pastes@.take(i + 1) =~= pastes@.take(i as int).push(pastes@[i as int]));
            assert(vv(r@) =~= vv(old_r).push(pastes@[i as int].0@));
            assert(phs_of(paste_view(pastes@.take(i + 1))) =~= phs_of(paste_view(pastes@.take(i as int))).push(
                pastes@[i as int].0@,
            ));
        }
        i += 1;
    }
    assert(pastes@.take(pastes@.len() as int) =~= pastes@);
    r
}

proof fn lemma_first_ending(s: Seq<char>, p: int, v: Seq<Seq<char>>, j: int)
    requires
        0 <= j,
    ensures
        first_ending(s, p, v, j) matches Some(i) ==> j <= i < v.len() && ends_at(s, p, v[i]),
    decreases v.len() - j,
{
    if j < v.len() && !ends_at(s, p, v[j]) {
        lemma_first_ending(s, p, v, j + 1);
    }
}

proof fn lemma_first_starting(s: Seq<char>, p: int, v: Seq<Seq<char>>, j: int)
    requires
        0 <= j,
    ensures
        first_starting(s, p, v, j) matches Some(i) ==> j <= i < v.len() && starts_at(s, p, v[i]),
    decreases v.len() - j,
{
    if j < v.len() && !starts_at(s, p, v[j]) {
        lemma_first_starting(s, p, v, j + 1);
    }
}

fn ends_at_exec(s: &[char], p: usize, ph: &[char]) -> (b: bool)
    requires
        p <= s@.len(),
    ensures
        b == ends_at(s@, p as int, ph@),
{
    if ph.len() > p {
        return false;
    }
    let b = starts_with_at(s, p - ph.len(), ph);
    proof {
        let st = p - ph@.len();
        assert(s@.skip(st).take(ph@.len() as int) =~= s@.subrange(st, p as int));
    }
    b
}

fn starts_at_exec(s: &[char], p: usize, ph: &[char]) -> (b: bool)
    requires
        p <= s@.len(),
    ensures
        b == starts_at(s@, p as int, ph@),
{
    if ph.len() > s.len() - p {
        return false;
    }
    let b = starts_with_at(s, p, ph);
    proof {
        assert(s@.skip(p as int).take(ph@.len() as int) =~= s@.subrange(p as int, p + ph@.len()));
    }
    b
}

fn first_ending_exec(s: &[char], p: usize, phs: &Vec<Vec<char>>) -> (r: Option<usize>)
    requires
        p <= s@.len(),
    ensures
        match r {
            Some(i) => first_ending(s@, p as int, vv(phs@), 0) == Some(i as int) && i < phs@.len(),
            None => first_ending(s@, p as int, vv(phs@), 0) is None,
        },
{
    let ghost v = vv(phs@);
    let mut i: usize = 0;
    while i < phs.len()
        invariant
            v == vv(phs@),
            p <= s@.len(),
            i <= phs@.len(),
            first_ending(s@, p as int, v, 0) == first_ending(s@, p as int, v, i as int),
        decreases phs.len() - i,
    {
        if ends_at_exec(s, p, &phs[i]) {
            return Some(i);
        }
        i += 1;
    }
    None
}

fn first_starting_exec(s: &[char], p: usize, phs: &Vec<Vec<char>>) -> (r: Option<usize>)
    requires
        p <= s@.len(),
    ensures
        match r {
            Some(i) => first_starting(s@, p as int, vv(phs@), 0) == Some(i as int) && i < phs@.len(),
            None => first_starting(s@, p as int, vv(phs@), 0) is None,
        },
{
    let ghost v = vv(phs@);
    let mut i: usize = 0;
    while i < phs.len()
        invariant
            v == vv(phs@),
            p <= s@.len(),
            i <= phs@.len(),
            first_starting(s@, p as int, v, 0) == first_starting(s@, p as int, v, i as int),
        decreases phs.len() - i,
    {
        if starts_at_exec(s, p, &phs[i]) {
            return Some(i);
        }
        i += 1;
    }
    None
}

fn nth_with_exec(phs: &Vec<Vec<char>>, ph: &[char], n: usize) -> (r: Option<usize>)
    ensures
        match r {
            Some(i) => nth_with(vv(phs@), ph@, n as nat, 0) == Some(i as int) && i < phs@.len(),
            None => nth_with(vv(phs@), ph@, n as nat, 0) is None,
        },
{
    let ghost v = vv(phs@);
    let mut i: usize = 0;
    let mut m: usize = n;
    while i < phs.len()
        invariant
            v == vv(phs@),
            i <= phs@.len(),
            nth_with(v, ph@, n as nat, 0) == nth_with(v, ph@, m as nat, i as int),
        decreases phs.len() - i,
    {
        if chars_eq(&phs[i], ph) {
            if m == 0 {
                return Some(i);
            }
            m -= 1;
        }
        i += 1;
    }
    None
}

fn occurrences_reach_end_exec(s: &[char], pat: &[char]) -> (b: bool)
    ensures
        b == occurrences_reach_end(s@, pat@),
{
    let n = s.len();
    let m = pat.len();
    let mut i: usize = 0;
    proof {
        assert(s@.skip(0) =~= s@);
    }
    while i < n
        invariant
            n == s@.len(),
            m == pat@.len(),
            i <= n,
            occurrences_reach_end(s@.skip(i as int), pat@) == occurrences_reach_end(s@, pat@),
        decreases n - i,
    {
        let t = Ghost(s@.skip(i as int));
        if m == 0 || n - i < m {
            return false;
        }
        if starts_with_at(s, i, pat) {
            proof {
                assert(t@.skip(m as int) =~= s@.skip(i + m));
            }
            i = i + m;
        } else {
            proof {
                assert(t@.drop_first() =~= s@.skip(i + 1));
            }
            i = i + 1;
        }
    }
    assert(s@.skip(i as int).len() == 0);
    true
}

/// Number of non-overlapping occurrences of `pat` in `s[..k]` (none for an
/// empty `pat`).
fn count_before(s: &[char], k: usize, pat: &[char]) -> (r: usize)
    requires
        k <= s@.len(),
    ensures
        r == count_matches(s@.take(k as int), pat@),
{
    let head = &s[0..k];
    assert(head@ =~= s@.take(k as int));
    if pat.len() == 0 {
        0
    } else {
        count_matches_chars(head, pat)
    }
}

/// The image an occurrence of placeholder `i` stands for.
fn image_for_occurrence_exec(phs: &Vec<Vec<char>>, i: usize, s: &[char], k: usize) -> (r: usize)
    requires
        i < phs@.len(),
        k <= s@.len(),
    ensures
        r == image_for_occurrence(vv(phs@), i as int, s@.take(k as int)),
        r < phs@.len(),
{
    let occ = count_before(s, k, &phs[i]);
    match nth_with_exec(phs, &phs[i], occ) {
        Some(idx) => idx,
        None => i,
    }
}

/// Decide which placeholder Backspace removes with the cursor at `p`.
pub fn find_placeholder_removal(
    s: &[char],
    p: usize,
    img_phs: &Vec<Vec<char>>,
    paste_phs: &Vec<Vec<char>>,
) -> (r: Option<Removal>)
    requires
        p <= s@.len(),
    ensures
        r == placeholder_removal(s@, p as int, vv(img_phs@), vv(paste_phs@)),
        r matches Some(Removal::Image { start, end, index }) ==> start <= end <= s@.len()
            && index < img_phs@.len(),
        r matches Some(Removal::Paste { start, end, index }) ==> start <= end <= s@.len()
            && index < paste_phs@.len(),
{
    let ghost iv = vv(img_phs@);
    let ghost pv = vv(paste_phs@);
    let n = s.len();
    match first_ending_exec(s, p, img_phs) {
        Some(i) => {
            let len = img_phs[i].len();
            proof {
                lemma_first_ending(s@, p as int, iv, 0);
            }
            let idx = image_for_occurrence_exec(img_phs, i, s, p - len);
            return Some(Removal::Image { start: p - len, end: p, index: idx });
        },
        None => {},
    }
    match first_starting_exec(s, p, img_phs) {
        Some(i) => {
            let head = &s[0..p];
            assert(head@ =~= s@.take(p as int));
            proof {
                lemma_first_starting(s@, p as int, iv, 0);
                assert(iv[i as int] == img_phs@[i as int]@);
            }
            if occurrences_reach_end_exec(head, &img_phs[i]) {
                let len = img_phs[i].len();
                let idx = image_for_occurrence_exec(img_phs, i, s, p);
                return Some(Removal::Image { start: p, end: p + len, index: idx });
            }
        },
        None => {},
    }
    match first_ending_exec(s, p, paste_phs) {
        Some(j) => {
            let len = paste_phs[j].len();
            proof {
                lemma_first_ending(s@, p as int, pv, 0);
            }
            return Some(Removal::Paste { start: p - len, end: p, index: j });
        },
        None => {},
    }
    match first_starting_exec(s, p, paste_phs) {
        Some(j) => {
            let len = paste_phs[j].len();
            proof {
                lemma_first_starting(s@, p as int, pv, 0);
                assert(pv[j as int] == paste_phs@[j as int]@);
            }
            Some(Removal::Paste { start: p, end: p + len, index: j })
        },
        None => None,
    }
}

/// The pending pastes whose placeholder differs from `ph`.
pub fn remove_pastes_with(pastes: &Vec<(String, String)>, ph: &[char]) -> (r: Vec<(String, String)>)
    ensures
        paste_view(r@) == pastes_without(paste_view(pastes@), ph@),
{
    let mut r: Vec<(String, String)> = Vec::new();
    let mut i: usize = 0;
    while i < pastes.len()
        invariant
            i <= pastes@.len(),
            paste_view(r@) == pastes_without(paste_view(pastes@.take(i as int)), ph@),
        decreases pastes.len() - i,
    {
        let q = chars_of(pastes[i].0.as_str());
        let same = chars_eq(&q, ph);
        proof {
            assert(pastes@.take(i + 1) =~= pastes@.take(i as int).push(pastes@[i as int]));
            assert(paste_view(pastes@.take(i + 1)).drop_last() =~= paste_view(pastes@.take(i as int)));
            assert(paste_view(pastes@.take(i + 1)).last() == (pastes@[i as int].0@, pastes@[i as int].1@));
        }
        if !same {
            let p = (pastes[i].0.clone(), pastes[i].1.clone());
            let ghost old_r = r@;
            r.push(p);
            proof {
                assert(paste_view(r@) =~= paste_view(old_r).push(
                    (pastes@[i as int].0@, pastes@[i as int].1@),
                ));
            }
        }
        i += 1;
    }
    assert(pastes@.take(pastes@.len() as int) =~= pastes@);
    r
}

/// Dropping pastes keeps every placeholder non-empty.
pub proof fn lemma_retained_pastes_nonempty(p: Seq<(Seq<char>, Seq<char>)>, t: Seq<char>)
    requires
        placeholders_nonempty(p),
    ensures
        placeholders_nonempty(retained_pastes(p, t)),
    decreases p.len(),
{
    if p.len() > 0 {
        assert(placeholders_nonempty(p.drop_last()) ) by {
            assert forall|i: int| 0 <= i < p.drop_last().len() implies (#[trigger] p.drop_last()[i]).0.len() > 0 by {
                assert(p.drop_last()[i] == p[i]);
            }
        }
        lemma_retained_pastes_nonempty(p.drop_last(), t);
        assert(p.last() == p[p.len() - 1]);
    }
}

pub proof fn lemma_pastes_without_nonempty(p: Seq<(Seq<char>, Seq<char>)>, ph: Seq<char>)
    requires
        placeholders_nonempty(p),
    ensures
        placeholders_nonempty(pastes_without(p, ph)),
    decreases p.len(),
{
    if p.len() > 0 {
        assert(placeholders_nonempty(p.drop_last()) ) by {
            assert forall|i: int| 0 <= i < p.drop_last().len() implies (#[trigger] p.drop_last()[i]).0.len() > 0 by {
                assert(p.drop_last()[i] == p[i]);
            }
        }
        lemma_pastes_without_nonempty(p.drop_last(), ph);
        assert(p.last() == p[p.len() - 1]);
    }
}

pub proof fn lemma_retained_images_nonempty(p: Seq<(Seq<char>, Seq<char>)>, t: Seq<char>)
    requires
        placeholders_nonempty(p),
    ensures
        placeholders_nonempty(retained_images(p, t)),
    decreases p.len(),
{
    if p.len() > 0 {
        assert(placeholders_nonempty(p.drop_last()) ) by {
            assert forall|i: int| 0 <= i < p.drop_last().len() implies (#[trigger] p.drop_last()[i]).0.len() > 0 by {
                assert(p.drop_last()[i] == p[i]);
            }
        }
        lemma_retained_images_nonempty(p.drop_last(), t);
        assert(p.last() == p[p.len() - 1]);
    }
}

/// The pastes kept for a text are exactly those whose placeholder occurs
/// in it, in their order.
pub proof fn lemma_retained_pastes_filter(p: Seq<(Seq<char>, Seq<char>)>, t: Seq<char>)
    ensures
        retained_pastes(p, t) == p.filter(|x: (Seq<char>, Seq<char>)| contains_seq(t, x.0)),
        forall|i: int| 0 <= i < retained_pastes(p, t).len() ==> contains_seq(t, #[trigger] retained_pastes(p, t)[i].0),
    decreases p.len(),
{
    reveal(Seq::filter);
    if p.len() > 0 {
        lemma_retained_pastes_filter(p.drop_last(), t);
        let r = retained_pastes(p.drop_last(), t);
        if contains_seq(t, p.last().0) {
            assert forall|i: int| 0 <= i < r.push(p.last()).len() implies contains_seq(t, #[trigger] r.push(p.last())[i].0) by {
                if i < r.len() {
                    assert(r.push(p.last())[i] == r[i]);
                }
            }
        }
    }
}

/// For each placeholder, the images kept for a text are as many of those
/// sharing it as it occurs in the text.
pub proof fn lemma_retained_images_count(imgs: Seq<(Seq<char>, Seq<char>)>, t: Seq<char>, l: Seq<char>)
    ensures
        count_ph(retained_images(imgs, t), l) == if count_ph(imgs, l) < count_matches(t, l) {
            count_ph(imgs, l)
        } else {
            count_matches(t, l)
        },
    decreases imgs.len(),
{
    if imgs.len() > 0 {
        lemma_retained_images_count(imgs.drop_last(), t, l);
        let r = retained_images(imgs.drop_last(), t);
        let ph = imgs.last().0;
        if count_ph(imgs.drop_last(), ph) < count_matches(t, ph) {
            assert(r.push(imgs.last()).drop_last() =~= r);
            if ph == l {
                lemma_retained_images_count(imgs.drop_last(), t, ph);
            }
        }
    }
}

} // verus!
