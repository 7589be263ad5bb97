//! Markup in text sections: tags such as `<font="name">`, `<color="ff0000ff">`
//! and `<size="24">` start a style and `</font>`, `</color>` and `</size>` end
//! it. A section is cut into spans of plain text, each with the font, color
//! and size in force where it stands.
use vstd::prelude::*;
use vstd::string::*;
use crate::chars::same_text;
use core::num::ParseIntError;
use crate::pattern::{
    matches_in_order, match_view, regex_captures, regex_compiles, Pattern, TwoGroupMatch,
};

verus! {

/// The pattern of a markup tag: its command, then an optional `="value"`.
pub open spec fn markup_source() -> Seq<char> {
    "<([a-zA-Z0-9\\/]+)(?:=\")*([a-zA-Z0-9-_]*)\"*>"@
}

/// The markup pattern, compiled.
pub struct TextMarkup {
    pattern: Pattern,
}

impl View for TextMarkup {
    type V = Seq<char>;

    closed spec fn view(&self) -> Seq<char> {
        self.pattern@
    }
}

impl TextMarkup {
    /// The markup pattern compiled; `None` where regex refuses it.
    pub fn new() -> (r: Option<TextMarkup>)
        ensures
            r is Some <==> regex_compiles(markup_source()),
            r matches Some(m) ==> m@ == markup_source(),
    {
        match Pattern::compile("<([a-zA-Z0-9\\/]+)(?:=\")*([a-zA-Z0-9-_]*)\"*>") {
            Some(pattern) => Some(TextMarkup { pattern }),
            None => None,
        }
    }

    /// The markup tags of `text`, in order: where each lies, its command and
    /// its value.
    pub fn tags(&self, text: &str) -> (r: Vec<TwoGroupMatch>)
        ensures
            r@.map_values(|m: TwoGroupMatch| match_view(m)) == regex_captures(self@, text@),
            matches_in_order(r@, text.spec_bytes().len()),
    {
        self.pattern.two_group_matches(text)
    }
}

/// The value of a hexadecimal digit.
pub open spec fn hex_char(c: char) -> Option<int> {
    let x = c as int;
    if 0x30 <= x <= 0x39 {
        Some(x - 0x30)
    } else if 0x61 <= x <= 0x66 {
        Some(x - 0x61 + 10)
    } else if 0x41 <= x <= 0x46 {
        Some(x - 0x41 + 10)
    } else {
        None
    }
}

/// The number that the digits `d` spell in hexadecimal; `None` if one of them
/// is no digit.
pub open spec fn hex_digits_value(d: Seq<char>) -> Option<int>
    decreases d.len(),
{
    if d.len() == 0 {
        Some(0)
    } else {
        match (hex_digits_value(d.drop_last()), hex_char(d.last())) {
            (Some(v), Some(x)) => Some(v * 16 + x),
            _ => None,
        }
    }
}

/// The number that `s` spells in hexadecimal: an optional `+`, then one
/// digit or more, and a value that fits in `u32`.
pub open spec fn hex_u32(s: Seq<char>) -> Option<u32> {
    let d = if s.len() > 0 && s[0] == '+' {
        s.drop_first()
    } else {
        s
    };
    if d.len() == 0 {
        None
    } else {
        match hex_digits_value(d) {
            Some(v) => if v <= u32::MAX {
                Some(v as u32)
            } else {
                None
            },
            None => None,
        }
    }
}

/// `u32::from_str_radix` of std with radix 16: an optional `+`, then digits
/// `0-9`, `a-f` or `A-F` and nothing else, and a value that fits; anything else
/// is an error. (A byte outside ASCII is no digit, so reading the characters of
/// `s` reads what its bytes spell.)
#[verifier::external_body]
fn parse_hex_u32(s: &str) -> (r: Result<u32, ParseIntError>)
    ensures
        match hex_u32(s@) {
            Some(v) => r == Ok::<u32, ParseIntError>(v),
            None => r is Err,
        },
{
    u32::from_str_radix(s, 16)
}

/// What the text brush knows of the value of a tag: the font it names, where
/// the brush has one of that name, and whether it reads as a font size.
#[derive(Clone, Copy, Debug, PartialEq, Eq)]
pub struct TagLookup {
    pub font: Option<usize>,
    pub size_parses: bool,
}

/// The color of a span: the section's own, or one that a tag gave as
/// `0xRRGGBBAA`.
#[derive(Clone, Copy, Debug, PartialEq, Eq)]
pub enum SpanColor {
    Default,
    Packed(u32),
}

/// The font size of a span: the section's own, or the one that the value of
/// the tag at that index spells.
#[derive(Clone, Copy, Debug, PartialEq, Eq)]
pub enum SpanSize {
    Default,
    Tag(usize),
}

/// A span of plain text, by byte offsets into the section's text, with its
/// font, color and size.
#[derive(Clone, Copy, Debug, PartialEq, Eq)]
pub struct TextSpan {
    pub start: usize,
    pub end: usize,
    pub font: usize,
    pub color: SpanColor,
    pub size: SpanSize,
}

/// Where the cutting of a section stands: the styles in force, as stacks, the
/// end of the last tag, and the spans so far.
pub struct MarkupState {
    pub fonts: Seq<usize>,
    pub colors: Seq<SpanColor>,
    pub sizes: Seq<SpanSize>,
    pub last_end: usize,
    pub spans: Seq<TextSpan>,
}

/// The top of the stack `s`, or `default` where it is empty.
pub open spec fn top<T>(s: Seq<T>, default: T) -> T {
    if s.len() > 0 {
        s.last()
    } else {
        default
    }
}

/// The stack `s` with its top taken off, if it has one.
pub open spec fn popped<T>(s: Seq<T>) -> Seq<T> {
    if s.len() > 0 {
        s.drop_last()
    } else {
        s
    }
}

/// Whether `c` is one of the six commands.
pub open spec fn is_command(c: Seq<char>) -> bool {
    ||| c == "font"@
    ||| c == "/font"@
    ||| c == "color"@
    ||| c == "/color"@
    ||| c == "size"@
    ||| c == "/size"@
}

/// The color that the value of a color tag gives: white where it spells no
/// number.
pub open spec fn tag_color(value: Seq<char>) -> u32 {
    match hex_u32(value) {
        Some(v) => v,
        None => 0xFFFF_FFFF,
    }
}

/// The styles after the command of `tag`, the tag at index `i`.
pub open spec fn apply_command(
    st: MarkupState,
    tag: TwoGroupMatch,
    lookup: TagLookup,
    i: int,
) -> MarkupState {
    let c = tag.first@;
    if c == "font"@ {
        match lookup.font {
            Some(id) => MarkupState { fonts: st.fonts.push(id), ..st },
            None => st,
        }
    } else if c == "/font"@ {
        MarkupState { fonts: popped(st.fonts), ..st }
    } else if c == "color"@ {
        MarkupState { colors: st.colors.push(SpanColor::Packed(tag_color(tag.second@))), ..st }
    } else if c == "/color"@ {
        MarkupState { colors: popped(st.colors), ..st }
    } else if c == "size"@ {
        if lookup.size_parses {
            MarkupState { sizes: st.sizes.push(SpanSize::Tag(i as usize)), ..st }
        } else {
            st
        }
    } else {
        MarkupState { sizes: popped(st.sizes), ..st }
    }
}

/// The span from `start` to `end` in the styles in force in `st`.
pub open spec fn span_in(st: MarkupState, start: usize, end: usize) -> TextSpan {
    TextSpan {
        start,
        end,
        font: top(st.fonts, 0),
        color: top(st.colors, SpanColor::Default),
        size: top(st.sizes, SpanSize::Default),
    }
}

/// The cutting after the tag `tag`, at index `i`: a tag whose command is none
/// of the six is plain text; any other closes the span of text before it, if
/// that is not empty, in the styles in force before it, and then applies its
/// command.
pub open spec fn markup_step(st: MarkupState, tag: TwoGroupMatch, lookup: TagLookup, i: int) -> MarkupState {
    if !is_command(tag.first@) {
        st
    } else {
        let applied = apply_command(st, tag, lookup, i);
        let spans = if st.last_end != tag.start {
            st.spans.push(span_in(st, st.last_end, tag.start))
        } else {
            st.spans
        };
        MarkupState { last_end: tag.end, spans, ..applied }
    }
}

/// Where the cutting starts: font 0, the section's color and size, no spans.
pub open spec fn markup_start() -> MarkupState {
    MarkupState {
        fonts: seq![0usize],
        colors: seq![SpanColor::Default],
        sizes: seq![SpanSize::Default],
        last_end: 0,
        spans: Seq::empty(),
    }
}

/// The cutting after the first `n` tags.
pub open spec fn markup_run(tags: Seq<TwoGroupMatch>, lookups: Seq<TagLookup>, n: int) -> MarkupState
    decreases n,
{
    if n <= 0 {
        markup_start()
    } else {
        markup_step(markup_run(tags, lookups, n - 1), tags[n - 1], lookups[n - 1], n - 1)
    }
}

/// The spans of a section of `len` bytes with the tags `tags`: those the tags
/// close, and last the text after the last tag, if it is not empty.
pub open spec fn section_spans(len: usize, tags: Seq<TwoGroupMatch>, lookups: Seq<TagLookup>) -> Seq<
    TextSpan,
> {
    let st = markup_run(tags, lookups, tags.len() as int);
    if st.last_end != len {
        st.spans.push(span_in(st, st.last_end, len))
    } else {
        st.spans
    }
}

/// The top of `s`, or `default` where it is empty.
fn top_or<T: Copy>(s: &Vec<T>, default: T) -> (r: T)
    ensures
        r == top(s@, default),
{
    if s.len() > 0 {
        s[s.len() - 1]
    } else {
        default
    }
}

/// Cuts `text` into spans of plain text at its markup tags `tags`, each span
/// in the font, color and size in force where it stands. `lookups` holds, for
/// each tag, what the brush knows of its value.
pub fn markup_spans(text: &str, tags: &[TwoGroupMatch], lookups: &[TagLookup]) -> (r: Vec<TextSpan>)
    requires
        tags@.len() == lookups@.len(),
    ensures
        r@ == section_spans(text.spec_bytes().len() as usize, tags@, lookups@),
{
    let mut fonts: Vec<usize> = vec![0usize];
    let mut colors: Vec<SpanColor> = vec![SpanColor::Default];
    let mut sizes: Vec<SpanSize> = vec![SpanSize::Default];
    let mut last_end: usize = 0;
    let mut spans: Vec<TextSpan> = Vec::new();
    let n = tags.len();
    let mut i: usize = 0;
    proof {
        assert(fonts@ =~= seq![0usize]);
        assert(colors@ =~= seq![SpanColor::Default]);
        assert(sizes@ =~= seq![SpanSize::Default]);
        assert(spans@ =~= Seq::<TextSpan>::empty());
    }
    while i < n
        invariant
            n == tags@.len(),
            n == lookups@.len(),
            i <= n,
            markup_run(tags@, lookups@, i as int) == (MarkupState {
                fonts: fonts@,
                colors: colors@,
                sizes: sizes@,
                last_end,
                spans: spans@,
            }),
        decreases n - i,
    {
        let tag = &tags[i];
        let lookup = lookups[i];
        let c = tag.first.as_str();
        let font = top_or(&fonts, 0usize);
        let color = top_or(&colors, SpanColor::Default);
        let size = top_or(&sizes, SpanSize::Default);
        let is_font = same_text(c, "font");
        let end_font = same_text(c, "/font");
        let is_color = same_text(c, "color");
        let end_color = same_text(c, "/color");
        let is_size = same_text(c, "size");
        let end_size = same_text(c, "/size");
        if is_font || end_font || is_color || end_color || is_size || end_size {
            if is_font {
                match lookup.font {
                    Some(id) => fonts.push(id),
                    None => {},
                }
            } else if end_font {
                let _ = fonts.pop();
            } else if is_color {
                let packed = match parse_hex_u32(tag.second.as_str()) {
                    Ok(v) => v,
                    Err(_) => 0xFFFF_FFFFu32,
                };
                colors.push(SpanColor::Packed(packed));
            } else if end_color {
                let _ = colors.pop();
            } else if is_size {
                if lookup.size_parses {
                    sizes.push(SpanSize::Tag(i));
                }
            } else {
                let _ = sizes.pop();
            }
            if last_end != tag.start {
                spans.push(TextSpan { start: last_end, end: tag.start, font, color, size });
            }
            last_end = tag.end;
        }
        i = i + 1;
    }
    let len = text.len();
    if last_end != len {
        let font = top_or(&fonts, 0usize);
        let color = top_or(&colors, SpanColor::Default);
        let size = top_or(&sizes, SpanSize::Default);
        spans.push(TextSpan { start: last_end, end: len, font, color, size });
    }
    spans
}

/// Each span is not empty and lies within `len` bytes, and each ends before the
/// next begins.
pub open spec fn spans_in_order(spans: Seq<TextSpan>, len: nat) -> bool {
    &&& forall|i: int| 0 <= i < spans.len() ==> (#[trigger] spans[i]).start < spans[i].end <= len
    &&& forall|i: int, j: int|
        0 <= i < j < spans.len() ==> (#[trigger] spans[i]).end <= (#[trigger] spans[j]).start
}

proof fn lemma_markup_run_in_order(
    tags: Seq<TwoGroupMatch>,
    lookups: Seq<TagLookup>,
    len: nat,
    n: int,
)
    requires
        matches_in_order(tags, len),
        tags.len() == lookups.len(),
        0 <= n <= tags.len(),
    ensures
        spans_in_order(markup_run(tags, lookups, n).spans, markup_run(tags, lookups, n).last_end as nat),
        markup_run(tags, lookups, n).last_end <= len,
        forall|k: int| n <= k < tags.len() ==> markup_run(tags, lookups, n).last_end <= (#[trigger] tags[k]).start,
    decreases n,
{
    if n > 0 {
        lemma_markup_run_in_order(tags, lookups, len, n - 1);
        let st = markup_run(tags, lookups, n - 1);
        let tag = tags[n - 1];
        assert(st.last_end <= tag.start);
        assert(tag.start <= tag.end <= len);
        assert forall|k: int| n <= k < tags.len() implies tag.end <= (#[trigger] tags[k]).start by {
            assert(tags[n - 1].end <= tags[k].start);
        }
        if is_command(tag.first@) {
            let next = markup_run(tags, lookups, n);
            assert(next.last_end == tag.end);
            if st.last_end != tag.start {
                assert(next.spans == st.spans.push(span_in(st, st.last_end, tag.start)));
            } else {
                assert(next.spans == st.spans);
            }
        }
    }
}

/// The spans of a section come in order, are not empty, do not overlap and lie
/// within the text, where its tags come in order within it.
pub proof fn lemma_section_spans_in_order(
    len: usize,
    tags: Seq<TwoGroupMatch>,
    lookups: Seq<TagLookup>,
)
    requires
        matches_in_order(tags, len as nat),
        tags.len() == lookups.len(),
    ensures
        spans_in_order(section_spans(len, tags, lookups), len as nat),
{
    lemma_markup_run_in_order(tags, lookups, len as nat, tags.len() as int);
}


/// `after` is the stack `before` with its top taken off, or empty where
/// `before` is empty.
pub open spec fn is_pop_of<T>(before: Seq<T>, after: Seq<T>) -> bool {
    &&& before.len() > 0 ==> after == before.subrange(0, before.len() - 1)
    &&& before.len() == 0 ==> after.len() == 0
}

/// `after` is the stack `before` with `x` put on top.
pub open spec fn is_push_of<T>(before: Seq<T>, after: Seq<T>, x: T) -> bool {
    &&& after.len() == before.len() + 1
    &&& after.subrange(0, before.len() as int) == before
    &&& after[before.len() as int] == x
}

/// What a tag does to the stacks of styles. The tag at index `k` takes the
/// stacks in force before it to those in force after it. An opening tag puts
/// its style on top of its own stack: a font where the brush knows one of that
/// name, a color, or a size where its value reads as one. A closing tag takes
/// off the top of its own stack and nothing more. A tag never touches another
/// style's stack, and a tag that is no command touches none.
/// The six commands are six different words.
proof fn lemma_commands_differ()
    ensures
        "font"@ != "/font"@,
        "font"@ != "color"@,
        "font"@ != "/color"@,
        "font"@ != "size"@,
        "font"@ != "/size"@,
        "/font"@ != "color"@,
        "/font"@ != "/color"@,
        "/font"@ != "size"@,
        "/font"@ != "/size"@,
        "color"@ != "/color"@,
        "color"@ != "size"@,
        "color"@ != "/size"@,
        "/color"@ != "size"@,
        "/color"@ != "/size"@,
        "size"@ != "/size"@,
{
    reveal_strlit("font");
    reveal_strlit("/font");
    reveal_strlit("color");
    reveal_strlit("/color");
    reveal_strlit("size");
    reveal_strlit("/size");
    assert("font"@.len() != "/font"@.len());
    assert("font"@[0] != "color"@[0]);
    assert("font"@.len() != "/color"@.len());
    assert("font"@[0] != "size"@[0]);
    assert("font"@.len() != "/size"@.len());
    assert("/font"@[1] != "color"@[1]);
    assert("/font"@.len() != "/color"@.len());
    assert("/font"@.len() != "size"@.len());
    assert("/font"@[1] != "/size"@[1]);
    assert("color"@.len() != "/color"@.len());
    assert("color"@.len() != "size"@.len());
    assert("color"@[0] != "/size"@[0]);
    assert("/color"@.len() != "size"@.len());
    assert("/color"@.len() != "/size"@.len());
    assert("size"@.len() != "/size"@.len());
}

pub proof fn lemma_tag_moves_its_stack(tags: Seq<TwoGroupMatch>, lookups: Seq<TagLookup>, k: int)
    requires
        tags.len() == lookups.len(),
        0 <= k < tags.len(),
    ensures
        ({
            let before = markup_run(tags, lookups, k);
            let after = markup_run(tags, lookups, k + 1);
            let c = tags[k].first@;
            &&& c == "color"@ ==> is_push_of(
                before.colors,
                after.colors,
                SpanColor::Packed(tag_color(tags[k].second@)),
            )
            &&& c == "/color"@ ==> is_pop_of(before.colors, after.colors)
            &&& c != "color"@ && c != "/color"@ ==> after.colors == before.colors
            &&& c == "font"@ ==> match lookups[k].font {
                Some(id) => is_push_of(before.fonts, after.fonts, id),
                None => after.fonts == before.fonts,
            }
            &&& c == "/font"@ ==> is_pop_of(before.fonts, after.fonts)
            &&& c != "font"@ && c != "/font"@ ==> after.fonts == before.fonts
            &&& c == "size"@ ==> if lookups[k].size_parses {
                is_push_of(before.sizes, after.sizes, SpanSize::Tag(k as usize))
            } else {
                after.sizes == before.sizes
            }
            &&& c == "/size"@ ==> is_pop_of(before.sizes, after.sizes)
            &&& c != "size"@ && c != "/size"@ ==> after.sizes == before.sizes
        }),
{
    lemma_commands_differ();
    let before = markup_run(tags, lookups, k);
    let after = markup_run(tags, lookups, k + 1);
    assert(after == markup_step(before, tags[k], lookups[k], k));
    assert(before.colors.push(SpanColor::Packed(tag_color(tags[k].second@))).subrange(
        0,
        before.colors.len() as int,
    ) =~= before.colors);
    assert(before.sizes.push(SpanSize::Tag(k as usize)).subrange(0, before.sizes.len() as int)
        =~= before.sizes);
    if tags[k].first@ == "size"@ && lookups[k].size_parses {
        assert(after.sizes == before.sizes.push(SpanSize::Tag(k as usize)));
    }
    if let Some(id) = lookups[k].font {
        assert(before.fonts.push(id).subrange(0, before.fonts.len() as int) =~= before.fonts);
    }
    if before.colors.len() > 0 {
        assert(before.colors.drop_last() =~= before.colors.subrange(0, before.colors.len() - 1));
    }
    if before.fonts.len() > 0 {
        assert(before.fonts.drop_last() =~= before.fonts.subrange(0, before.fonts.len() - 1));
    }
    if before.sizes.len() > 0 {
        assert(before.sizes.drop_last() =~= before.sizes.subrange(0, before.sizes.len() - 1));
    }
}

/// A closing tag undoes exactly its opening tag. Where a `<color=..>` tag is
/// followed directly by a `</color>` tag, the colors in force after the pair
/// are those in force before it. So after a nested color ends, the outer color
/// is in force again. The same holds of fonts and sizes.
pub proof fn lemma_closing_tag_restores(tags: Seq<TwoGroupMatch>, lookups: Seq<TagLookup>, k: int)
    requires
        tags.len() == lookups.len(),
        0 <= k,
        k + 1 < tags.len(),
    ensures
        tags[k].first@ == "color"@ && tags[k + 1].first@ == "/color"@ ==> markup_run(
            tags,
            lookups,
            k + 2,
        ).colors == markup_run(tags, lookups, k).colors,
        tags[k].first@ == "font"@ && tags[k + 1].first@ == "/font"@ && lookups[k].font is Some
            ==> markup_run(tags, lookups, k + 2).fonts == markup_run(tags, lookups, k).fonts,
        tags[k].first@ == "size"@ && tags[k + 1].first@ == "/size"@ && lookups[k].size_parses
            ==> markup_run(tags, lookups, k + 2).sizes == markup_run(tags, lookups, k).sizes,
{
    lemma_tag_moves_its_stack(tags, lookups, k);
    lemma_tag_moves_its_stack(tags, lookups, k + 1);
    let s0 = markup_run(tags, lookups, k);
    let s1 = markup_run(tags, lookups, k + 1);
    let s2 = markup_run(tags, lookups, k + 2);
    if tags[k].first@ == "color"@ && tags[k + 1].first@ == "/color"@ {
        assert(s2.colors =~= s0.colors);
    }
    if tags[k].first@ == "font"@ && tags[k + 1].first@ == "/font"@ && lookups[k].font is Some {
        assert(s2.fonts =~= s0.fonts);
    }
    if tags[k].first@ == "size"@ && tags[k + 1].first@ == "/size"@ && lookups[k].size_parses {
        assert(s2.sizes =~= s0.sizes);
    }
}


/// A tag cuts the text before it off as a span in the styles in force before
/// the tag. At a command tag, the text since the end of the previous command tag
/// becomes one more span, if it is not empty, with the font, color and size on
/// top of the stacks before the tag. The next span starts where the tag ends. A
/// tag that is no command is plain text and changes nothing.
pub proof fn lemma_tag_closes_span(tags: Seq<TwoGroupMatch>, lookups: Seq<TagLookup>, k: int)
    requires
        tags.len() == lookups.len(),
        0 <= k < tags.len(),
    ensures
        ({
            let before = markup_run(tags, lookups, k);
            let after = markup_run(tags, lookups, k + 1);
            let tag = tags[k];
            let span = TextSpan {
                start: before.last_end,
                end: tag.start,
                font: if before.fonts.len() > 0 { before.fonts.last() } else { 0 },
                color: if before.colors.len() > 0 {
                    before.colors.last()
                } else {
                    SpanColor::Default
                },
                size: if before.sizes.len() > 0 {
                    before.sizes.last()
                } else {
                    SpanSize::Default
                },
            };
            &&& !is_command(tag.first@) ==> after == before
            &&& is_command(tag.first@) ==> after.last_end == tag.end
            &&& is_command(tag.first@) && before.last_end != tag.start ==> after.spans
                == before.spans.push(span)
            &&& is_command(tag.first@) && before.last_end == tag.start ==> after.spans
                == before.spans
        }),
{
    let before = markup_run(tags, lookups, k);
    assert(markup_run(tags, lookups, k + 1) == markup_step(before, tags[k], lookups[k], k));
}

} // verus!
