//! How a text splits into segments: runs of characters of one bidirectional
//! class and one script, which are shaped as a whole. A paragraph separator is
//! a segment of its own.
//!
//! The bidirectional classes and embedding levels come from `unicode_bidi`; the
//! script of each character is the text shaper's (harfbuzz) and is handed in.
use vstd::prelude::*;

use crate::text::string_of;

verus! {

/// The bidirectional class of a character, as the Unicode bidirectional
/// algorithm names it.
#[derive(Clone, Copy, Debug, PartialEq, Eq, Structural)]
pub enum RawClass {
    AL,
    AN,
    B,
    BN,
    CS,
    EN,
    ES,
    ET,
    FSI,
    L,
    LRE,
    LRI,
    LRO,
    NSM,
    ON,
    PDF,
    PDI,
    R,
    RLE,
    RLI,
    RLO,
    S,
    WS,
}

/// The class a segment is made of: separators and whitespace keep their class,
/// every other character counts as left-to-right (`L`) or right-to-left (`R`)
/// text by its embedding level.
#[derive(Clone, Copy, Debug, PartialEq, Eq, Structural)]
pub enum ResolvedClass {
    B,
    S,
    WS,
    L,
    R,
}

/// A segment: the characters `start..start + len`, its direction (that of the
/// embedding level of its first character), class and script.
#[derive(Clone, Copy, Debug, PartialEq, Eq, Structural)]
pub struct Span {
    pub start: usize,
    pub len: usize,
    pub rtl: bool,
    pub class: ResolvedClass,
    pub script: u32,
}

/// The number of bidirectional classes.
pub const CLASS_COUNT: u8 = 23;

/// The class numbered `code`, in the order in which the Unicode bidirectional
/// algorithm's table (and `unicode_bidi::BidiClass`) lists them.
pub open spec fn class_of_code(code: u8) -> RawClass {
    if code == 0 {
        RawClass::AL
    } else if code == 1 {
        RawClass::AN
    } else if code == 2 {
        RawClass::B
    } else if code == 3 {
        RawClass::BN
    } else if code == 4 {
        RawClass::CS
    } else if code == 5 {
        RawClass::EN
    } else if code == 6 {
        RawClass::ES
    } else if code == 7 {
        RawClass::ET
    } else if code == 8 {
        RawClass::FSI
    } else if code == 9 {
        RawClass::L
    } else if code == 10 {
        RawClass::LRE
    } else if code == 11 {
        RawClass::LRI
    } else if code == 12 {
        RawClass::LRO
    } else if code == 13 {
        RawClass::NSM
    } else if code == 14 {
        RawClass::ON
    } else if code == 15 {
        RawClass::PDF
    } else if code == 16 {
        RawClass::PDI
    } else if code == 17 {
        RawClass::R
    } else if code == 18 {
        RawClass::RLE
    } else if code == 19 {
        RawClass::RLI
    } else if code == 20 {
        RawClass::RLO
    } else if code == 21 {
        RawClass::S
    } else {
        RawClass::WS
    }
}

/// The class numbered `code` (`code < CLASS_COUNT`).
pub fn class_from_code(code: u8) -> (c: RawClass)
    requires
        code < CLASS_COUNT,
    ensures
        c == class_of_code(code),
{
    if code == 0 {
        RawClass::AL
    } else if code == 1 {
        RawClass::AN
    } else if code == 2 {
        RawClass::B
    } else if code == 3 {
        RawClass::BN
    } else if code == 4 {
        RawClass::CS
    } else if code == 5 {
        RawClass::EN
    } else if code == 6 {
        RawClass::ES
    } else if code == 7 {
        RawClass::ET
    } else if code == 8 {
        RawClass::FSI
    } else if code == 9 {
        RawClass::L
    } else if code == 10 {
        RawClass::LRE
    } else if code == 11 {
        RawClass::LRI
    } else if code == 12 {
        RawClass::LRO
    } else if code == 13 {
        RawClass::NSM
    } else if code == 14 {
        RawClass::ON
    } else if code == 15 {
        RawClass::PDF
    } else if code == 16 {
        RawClass::PDI
    } else if code == 17 {
        RawClass::R
    } else if code == 18 {
        RawClass::RLE
    } else if code == 19 {
        RawClass::RLI
    } else if code == 20 {
        RawClass::RLO
    } else if code == 21 {
        RawClass::S
    } else {
        RawClass::WS
    }
}

/// For each character of `text`: whether its embedding level is right-to-left,
/// and the number of its original bidirectional class, as
/// `unicode_bidi::BidiInfo::new` finds them.
pub uninterp spec fn bidi_of(text: Seq<char>) -> Seq<(bool, u8)>;

/// `unicode_bidi::BidiInfo::new(text, None)`, read at the first byte of each
/// character: whether the embedding level there is odd (right-to-left), and the
/// original class as its number in `unicode_bidi::BidiClass`, which has
/// `CLASS_COUNT` variants. The result has one entry per character; nothing more
/// is claimed of it than that it is `bidi_of(text)`.
#[verifier::external_body]
fn bidi_info(text: &str) -> (r: Vec<(bool, u8)>)
    ensures
        r@ == bidi_of(text@),
        r@.len() == text@.len(),
        forall|i: int| 0 <= i < r@.len() ==> #[trigger] r@[i].1 < CLASS_COUNT,
{
    let info = unicode_bidi::BidiInfo::new(text, None);
    text.char_indices().map(|(i, _)| (info.levels[i].is_rtl(), info.original_classes[i] as u8)).collect()
}

/// The direction and class of each character of `text`.
pub open spec fn classes_of(text: Seq<char>) -> Seq<(bool, RawClass)> {
    bidi_of(text).map_values(|b: (bool, u8)| (b.0, class_of_code(b.1)))
}

/// The class a character of direction `rtl` and class `raw` counts as:
/// paragraph separators, segment separators and whitespace keep their class;
/// every other character counts as text of the direction of its level.
pub open spec fn resolve_spec(rtl: bool, raw: RawClass) -> ResolvedClass {
    match raw {
        RawClass::B => ResolvedClass::B,
        RawClass::S => ResolvedClass::S,
        RawClass::WS => ResolvedClass::WS,
        _ => if rtl {
            ResolvedClass::R
        } else {
            ResolvedClass::L
        },
    }
}

pub fn resolve_class(rtl: bool, raw: RawClass) -> (c: ResolvedClass)
    ensures
        c == resolve_spec(rtl, raw),
{
    match raw {
        RawClass::B => ResolvedClass::B,
        RawClass::S => ResolvedClass::S,
        RawClass::WS => ResolvedClass::WS,
        _ => if rtl {
            ResolvedClass::R
        } else {
            ResolvedClass::L
        },
    }
}

/// Whether a segment of class `c` is one a line may break after.
pub open spec fn breaking_spec(c: ResolvedClass) -> bool {
    c == ResolvedClass::B || c == ResolvedClass::WS || c == ResolvedClass::S
}

pub fn breaking_class(c: ResolvedClass) -> (r: bool)
    ensures
        r == breaking_spec(c),
{
    c == ResolvedClass::B || c == ResolvedClass::WS || c == ResolvedClass::S
}

/// The segment the text starts with, before any character: empty, with the
/// direction, class and script of the first character.
pub open spec fn first_span(bidi: Seq<(bool, RawClass)>, scripts: Seq<u32>) -> Span {
    Span {
        start: 0,
        len: 0,
        rtl: bidi[0].0,
        class: resolve_spec(bidi[0].0, bidi[0].1),
        script: scripts[0],
    }
}

/// The finished segments and the current one after the first `k` characters:
/// a character joins the current segment when it has its class and script and
/// is no paragraph separator; else it starts a new one.
pub open spec fn spans_after(bidi: Seq<(bool, RawClass)>, scripts: Seq<u32>, k: nat) -> (Seq<Span>, Span)
    decreases k,
{
    if k == 0 {
        (seq![], first_span(bidi, scripts))
    } else {
        let (done, cur) = spans_after(bidi, scripts, (k - 1) as nat);
        let i = k - 1;
        let class = resolve_spec(bidi[i].0, bidi[i].1);
        if class != ResolvedClass::B && class == cur.class && scripts[i] == cur.script {
            (done, Span { len: (cur.len + 1) as usize, ..cur })
        } else {
            (
                done.push(cur),
                Span { start: i as usize, len: 1, rtl: bidi[i].0, class, script: scripts[i] },
            )
        }
    }
}

/// The segments of a text whose characters have the bidirectional data `bidi`
/// and the scripts `scripts`; none for an empty text.
pub open spec fn segments_spec(bidi: Seq<(bool, RawClass)>, scripts: Seq<u32>) -> Seq<Span> {
    if bidi.len() == 0 {
        seq![]
    } else {
        let (done, cur) = spans_after(bidi, scripts, bidi.len());
        done.push(cur)
    }
}

/// The spans lie one after the other from character 0 to character `end`.
pub open spec fn tiles(spans: Seq<Span>, end: nat) -> bool {
    &&& spans.len() > 0 ==> spans[0].start == 0
    &&& forall|i: int| 0 <= i < spans.len() - 1 ==> #[trigger] spans[i + 1].start == spans[i].start + spans[i].len
    &&& spans.len() > 0 ==> spans.last().start + spans.last().len == end
    &&& spans.len() == 0 ==> end == 0
}

/// A paragraph-separator span holds at most one character.
pub open spec fn separators_alone(spans: Seq<Span>) -> bool {
    forall|i: int| 0 <= i < spans.len() && (#[trigger] spans[i]).class == ResolvedClass::B ==> spans[i].len <= 1
}

proof fn lemma_spans_after(bidi: Seq<(bool, RawClass)>, scripts: Seq<u32>, k: nat)
    requires
        bidi.len() > 0,
        k <= bidi.len(),
        k <= usize::MAX,
    ensures
        ({
            let (done, cur) = spans_after(bidi, scripts, k);
            &&& tiles(done.push(cur), k)
            &&& separators_alone(done.push(cur))
        }),
    decreases k,
{
    if k > 0 {
        lemma_spans_after(bidi, scripts, (k - 1) as nat);
        let (done0, cur0) = spans_after(bidi, scripts, (k - 1) as nat);
        let (done, cur) = spans_after(bidi, scripts, k);
        let all0 = done0.push(cur0);
        let all = done.push(cur);
        if done.len() == done0.len() {
            assert(done == done0);
            assert forall|i: int| 0 <= i < all.len() - 1 implies #[trigger] all[i + 1].start == all[i].start
                + all[i].len by {
                assert(all[i] == all0[i]);
                if i + 1 < all.len() - 1 {
                    assert(all[i + 1] == all0[i + 1]);
                }
            }
            assert forall|i: int| 0 <= i < all.len() && (#[trigger] all[i]).class == ResolvedClass::B implies all[i].len <= 1 by {
                if i < all.len() - 1 {
                    assert(all[i] == all0[i]);
                }
            }
        } else {
            assert(done == all0);
            assert forall|i: int| 0 <= i < all.len() - 1 implies #[trigger] all[i + 1].start == all[i].start
                + all[i].len by {
                assert(all[i] == all0[i]);
                if i + 1 < all.len() - 1 {
                    assert(all[i + 1] == all0[i + 1]);
                }
            }
            assert forall|i: int| 0 <= i < all.len() && (#[trigger] all[i]).class == ResolvedClass::B implies all[i].len <= 1 by {
                if i < all.len() - 1 {
                    assert(all[i] == all0[i]);
                }
            }
        }
    }
}

/// The segments of a text lie one after the other and together hold all its
/// characters, and a paragraph separator is a segment of its own.
pub proof fn law_segments_tile_text(bidi: Seq<(bool, RawClass)>, scripts: Seq<u32>)
    requires
        bidi.len() <= usize::MAX,
    ensures
        tiles(segments_spec(bidi, scripts), bidi.len()),
        separators_alone(segments_spec(bidi, scripts)),
{
    if bidi.len() > 0 {
        lemma_spans_after(bidi, scripts, bidi.len());
    }
}

/// Every character of the segment `sp` has its class and script, and it has the
/// direction of the embedding level of its first character.
pub open spec fn span_agrees(bidi: Seq<(bool, RawClass)>, scripts: Seq<u32>, sp: Span) -> bool {
    &&& sp.start < bidi.len()
    &&& sp.rtl == bidi[sp.start as int].0
    &&& forall|j: int|
        sp.start <= j < sp.start + sp.len ==> #[trigger] resolve_spec(bidi[j].0, bidi[j].1) == sp.class
            && scripts[j] == sp.script
}

/// Every segment of `spans` agrees with its characters.
pub open spec fn spans_agree(bidi: Seq<(bool, RawClass)>, scripts: Seq<u32>, spans: Seq<Span>) -> bool {
    forall|i: int| 0 <= i < spans.len() ==> span_agrees(bidi, scripts, #[trigger] spans[i])
}

proof fn lemma_spans_agree(bidi: Seq<(bool, RawClass)>, scripts: Seq<u32>, k: nat)
    requires
        bidi.len() > 0,
        k <= bidi.len(),
        k <= usize::MAX,
    ensures
        ({
            let (done, cur) = spans_after(bidi, scripts, k);
            &&& spans_agree(bidi, scripts, done.push(cur))
            &&& cur.start + cur.len == k
        }),
    decreases k,
{
    if k > 0 {
        lemma_spans_agree(bidi, scripts, (k - 1) as nat);
        lemma_spans_after(bidi, scripts, (k - 1) as nat);
        let (done0, cur0) = spans_after(bidi, scripts, (k - 1) as nat);
        let (done, cur) = spans_after(bidi, scripts, k);
        let all0 = done0.push(cur0);
        let all = done.push(cur);
        let last = all0.len() - 1;
        assert(cur0 == all0[last]);
        assert(span_agrees(bidi, scripts, cur0));
        let p = k - 1;
        let class = resolve_spec(bidi[p].0, bidi[p].1);
        if class != ResolvedClass::B && class == cur0.class && scripts[p] == cur0.script {
            assert(done == done0);
            assert(cur0.start + cur0.len == p);
            assert(cur == Span { len: (cur0.len + 1) as usize, ..cur0 });
            assert forall|j: int| cur.start <= j < cur.start + cur.len implies #[trigger] resolve_spec(
                bidi[j].0,
                bidi[j].1,
            ) == cur.class && scripts[j] == cur.script by {
                if j < cur0.start + cur0.len {
                    assert(resolve_spec(bidi[j].0, bidi[j].1) == cur0.class && scripts[j] == cur0.script);
                }
            }
            assert(span_agrees(bidi, scripts, cur));
            assert forall|i: int| 0 <= i < all.len() implies span_agrees(bidi, scripts, #[trigger] all[i]) by {
                if i < last {
                    assert(all[i] == all0[i]);
                }
            }
        } else {
            assert(done == all0);
            assert(span_agrees(bidi, scripts, cur));
            assert forall|i: int| 0 <= i < all.len() implies span_agrees(bidi, scripts, #[trigger] all[i]) by {
                if i < all0.len() {
                    assert(all[i] == all0[i]);
                }
            }
        }
    }
}

/// Segments are as long as they can be: a segment that holds characters is
/// followed by a paragraph separator or by a segment of another class or
/// script.
pub open spec fn spans_maximal(spans: Seq<Span>) -> bool {
    forall|i: int|
        0 <= i < spans.len() - 1 && spans[i].len > 0 ==> {
            ||| (#[trigger] spans[i + 1]).class == ResolvedClass::B
            ||| spans[i + 1].class != spans[i].class
            ||| spans[i + 1].script != spans[i].script
        }
}

proof fn lemma_spans_maximal(bidi: Seq<(bool, RawClass)>, scripts: Seq<u32>, k: nat)
    requires
        bidi.len() > 0,
        k <= bidi.len(),
        k <= usize::MAX,
    ensures
        ({
            let (done, cur) = spans_after(bidi, scripts, k);
            spans_maximal(done.push(cur))
        }),
    decreases k,
{
    if k > 0 {
        lemma_spans_maximal(bidi, scripts, (k - 1) as nat);
        lemma_spans_after(bidi, scripts, (k - 1) as nat);
        let (done0, cur0) = spans_after(bidi, scripts, (k - 1) as nat);
        let (done, cur) = spans_after(bidi, scripts, k);
        let all0 = done0.push(cur0);
        let all = done.push(cur);
        let last = all0.len() - 1;
        let p = k - 1;
        let class = resolve_spec(bidi[p].0, bidi[p].1);
        if class != ResolvedClass::B && class == cur0.class && scripts[p] == cur0.script {
            assert(done == done0);
            assert forall|i: int| 0 <= i < all.len() - 1 && all[i].len > 0 implies {
                ||| (#[trigger] all[i + 1]).class == ResolvedClass::B
                ||| all[i + 1].class != all[i].class
                ||| all[i + 1].script != all[i].script
            } by {
                assert(all[i] == all0[i]);
                if i + 1 < last {
                    assert(all[i + 1] == all0[i + 1]);
                } else {
                    assert(all[i + 1] == cur);
                    assert(all0[i + 1] == cur0);
                }
            }
        } else {
            assert(done == all0);
            assert forall|i: int| 0 <= i < all.len() - 1 && all[i].len > 0 implies {
                ||| (#[trigger] all[i + 1]).class == ResolvedClass::B
                ||| all[i + 1].class != all[i].class
                ||| all[i + 1].script != all[i].script
            } by {
                assert(all[i] == all0[i]);
                if i + 1 < all0.len() {
                    assert(all[i + 1] == all0[i + 1]);
                } else {
                    assert(all[i + 1] == cur);
                    assert(all0[i] == cur0);
                }
            }
        }
    }
}

/// A text splits into as few segments as its classes and scripts allow.
pub proof fn law_segments_are_as_long_as_they_can_be(bidi: Seq<(bool, RawClass)>, scripts: Seq<u32>)
    requires
        bidi.len() <= usize::MAX,
    ensures
        spans_maximal(segments_spec(bidi, scripts)),
{
    if bidi.len() > 0 {
        lemma_spans_maximal(bidi, scripts, bidi.len());
    }
}

/// Every character of a segment has the segment's class and script, and each
/// segment has the direction of the embedding level of its first character.
pub proof fn law_segments_agree_with_their_characters(bidi: Seq<(bool, RawClass)>, scripts: Seq<u32>)
    requires
        bidi.len() <= usize::MAX,
    ensures
        spans_agree(bidi, scripts, segments_spec(bidi, scripts)),
{
    if bidi.len() > 0 {
        lemma_spans_agree(bidi, scripts, bidi.len());
    }
}

/// The segments, given the bidirectional data and the script of each character.
pub fn group_segments(bidi: &Vec<(bool, RawClass)>, scripts: &Vec<u32>) -> (spans: Vec<Span>)
    requires
        scripts@.len() == bidi@.len(),
    ensures
        spans@ == segments_spec(bidi@, scripts@),
{
    let n = bidi.len();
    let mut spans: Vec<Span> = Vec::new();
    if n == 0 {
        return spans;
    }
    let mut cur = Span {
        start: 0,
        len: 0,
        rtl: bidi[0].0,
        class: resolve_class(bidi[0].0, bidi[0].1),
        script: scripts[0],
    };
    let mut k: usize = 0;
    while k < n
        invariant
            n == bidi@.len(),
            n == scripts@.len(),
            n > 0,
            k <= n,
            (spans@, cur) == spans_after(bidi@, scripts@, k as nat),
            cur.start + cur.len == k,
        decreases n - k,
    {
        let class = resolve_class(bidi[k].0, bidi[k].1);
        if class != ResolvedClass::B && class == cur.class && scripts[k] == cur.script {
            cur.len = cur.len + 1;
        } else {
            spans.push(cur);
            cur = Span { start: k, len: 1, rtl: bidi[k].0, class, script: scripts[k] };
        }
        k += 1;
    }
    spans.push(cur);
    spans
}

/// The segments of `text`, whose characters have the scripts `scripts`, and the
/// direction of each character's embedding level.
pub fn segment_text(text: &Vec<char>, scripts: &Vec<u32>) -> (r: (Vec<Span>, Vec<bool>))
    requires
        scripts@.len() == text@.len(),
    ensures
        bidi_of(text@).len() == text@.len(),
        classes_of(text@).len() == text@.len(),
        r.0@ == segments_spec(classes_of(text@), scripts@),
        r.1@ == classes_of(text@).map_values(|b: (bool, RawClass)| b.0),
        r.1@.len() == text@.len(),
        tiles(r.0@, text@.len()),
        separators_alone(r.0@),
{
    let s = string_of(text);
    let info = bidi_info(s.as_str());
    let ghost classes = classes_of(text@);
    let n = info.len();
    let mut bidi: Vec<(bool, RawClass)> = Vec::new();
    let mut rtl: Vec<bool> = Vec::new();
    let mut k: usize = 0;
    while k < n
        invariant
            n == info@.len(),
            info@ == bidi_of(text@),
            classes == classes_of(text@),
            forall|i: int| 0 <= i < info@.len() ==> #[trigger] info@[i].1 < CLASS_COUNT,
            k <= n,
            bidi@ == classes.take(k as int),
            rtl@ == classes.take(k as int).map_values(|b: (bool, RawClass)| b.0),
        decreases n - k,
    {
        let (dir, code) = info[k];
        let class = class_from_code(code);
        bidi.push((dir, class));
        rtl.push(dir);
        assert(classes[k as int] == (dir, class));
        assert(bidi@ =~= classes.take(k + 1));
        assert(classes.take(k + 1).map_values(|b: (bool, RawClass)| b.0) =~= classes.take(
            k as int,
        ).map_values(|b: (bool, RawClass)| b.0).push(dir));
        k += 1;
    }
    assert(classes.take(n as int) =~= classes);
    let spans = group_segments(&bidi, scripts);
    proof {
        law_segments_tile_text(classes, scripts@);
    }
    (spans, rtl)
}

} // verus!
