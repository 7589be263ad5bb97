use void_runtime::pattern::TwoGroupMatch;
use void_runtime::text_markup::{
    markup_spans, SpanColor, SpanSize, TagLookup, TextMarkup, TextSpan,
};

fn no_lookup(n: usize) -> Vec<TagLookup> {
    vec![TagLookup { font: None, size_parses: false }; n]
}

fn span(start: usize, end: usize, font: usize, color: SpanColor, size: SpanSize) -> TextSpan {
    TextSpan { start, end, font, color, size }
}

#[test]
fn markup_tags_are_found_in_order() {
    let markup = TextMarkup::new().unwrap();
    let text = "Hello <color=\"ff0000ff\">red</color> world";
    let tags = markup.tags(text);
    assert_eq!(
        tags,
        vec![
            TwoGroupMatch {
                start: 6,
                end: 24,
                first: "color".to_string(),
                second: "ff0000ff".to_string(),
            },
            TwoGroupMatch { start: 27, end: 35, first: "/color".to_string(), second: String::new() },
        ]
    );
}

#[test]
fn color_tags_cut_the_text() {
    let markup = TextMarkup::new().unwrap();
    let text = "Hello <color=\"ff0000ff\">red</color> world";
    let tags = markup.tags(text);
    let spans = markup_spans(text, &tags, &no_lookup(tags.len()));
    assert_eq!(
        spans,
        vec![
            span(0, 6, 0, SpanColor::Default, SpanSize::Default),
            span(24, 27, 0, SpanColor::Packed(0xff00_00ff), SpanSize::Default),
            span(35, 41, 0, SpanColor::Default, SpanSize::Default),
        ]
    );
}

#[test]
fn plain_text_is_one_span() {
    let spans = markup_spans("just text", &[], &[]);
    assert_eq!(spans, vec![span(0, 9, 0, SpanColor::Default, SpanSize::Default)]);
    assert_eq!(markup_spans("", &[], &[]), vec![]);
}

#[test]
fn unknown_tags_stay_in_the_text() {
    let markup = TextMarkup::new().unwrap();
    let text = "a<b>c";
    let tags = markup.tags(text);
    assert_eq!(tags.len(), 1);
    let spans = markup_spans(text, &tags, &no_lookup(tags.len()));
    assert_eq!(spans, vec![span(0, 5, 0, SpanColor::Default, SpanSize::Default)]);
}

#[test]
fn fonts_and_sizes_follow_the_lookups() {
    let markup = TextMarkup::new().unwrap();
    let text = "<font=\"mono\"><size=\"24\">x</size>y</font><font=\"none\">z";
    let tags = markup.tags(text);
    assert_eq!(tags.len(), 5);
    let lookups = vec![
        TagLookup { font: Some(3), size_parses: false },
        TagLookup { font: None, size_parses: true },
        TagLookup { font: None, size_parses: false },
        TagLookup { font: None, size_parses: false },
        TagLookup { font: None, size_parses: false },
    ];
    let spans = markup_spans(text, &tags, &lookups);
    let x = text.find('x').unwrap();
    let y = text.find('y').unwrap();
    let z = text.rfind('z').unwrap();
    assert_eq!(
        spans,
        vec![
            span(x, x + 1, 3, SpanColor::Default, SpanSize::Tag(1)),
            span(y, y + 1, 3, SpanColor::Default, SpanSize::Default),
            span(z, z + 1, 0, SpanColor::Default, SpanSize::Default),
        ]
    );
}

#[test]
fn bad_color_values_are_white_and_stacks_may_empty() {
    let markup = TextMarkup::new().unwrap();
    let text = "<color=\"zz\">a</color></color>b";
    let tags = markup.tags(text);
    let spans = markup_spans(text, &tags, &no_lookup(tags.len()));
    assert_eq!(spans[0].color, SpanColor::Packed(0xFFFF_FFFF));
    assert_eq!(spans[1].color, SpanColor::Default);
    assert_eq!(spans.len(), 2);
}

#[test]
fn spans_come_in_order() {
    let markup = TextMarkup::new().unwrap();
    let text = "a<color=\"00ff\">b<size=\"9\">c</size></color>d<b>e";
    let tags = markup.tags(text);
    let lookups = vec![TagLookup { font: None, size_parses: true }; tags.len()];
    let spans = markup_spans(text, &tags, &lookups);
    for pair in spans.windows(2) {
        assert!(pair[0].end <= pair[1].start);
    }
    for s in &spans {
        assert!(s.start < s.end && s.end <= text.len());
    }
    assert_eq!(spans[1].color, SpanColor::Packed(0xff));
}
