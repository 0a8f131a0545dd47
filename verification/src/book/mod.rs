//! The book preprocessor: the Nazm code blocks of a chapter are highlighted, each token of
//! the code wrapped in the style of its kind.
use crate::lexer::lexer_iter::{tokenizes, LexerIter};
use crate::lexer::token::{LiteralKind, Token, TokenKind};
use vstd::prelude::*;

pub mod markdown;

use markdown::{
    cmark_markdown, event_class, events_to_markdown, html_event, lemma_neutral_replacement,
    markdown_events, md_event_classes, tags_well_nested, tag_neutral, MdEvent, MdOrigin,
};

verus! {

/// The preprocessor of the book: it works for the HTML renderer.
pub struct NazmPreprocessor;

impl NazmPreprocessor {
    pub fn name(&self) -> (r: &'static str)
        ensures
            r@ == "nazm"@,
    {
        "nazm"
    }

    pub fn supports_renderer(&self, renderer: &str) -> (r: bool)
        ensures
            r == (renderer@ == "html"@),
    {
        let html = String::from_str("html");
        String::from_str(renderer) == html
    }
}

pub const COMMENT_STYLE: &'static str = "hljs-comment";

pub const TEXT_LITERAL_STYLE: &'static str = "hljs-string";

pub const NUM_LITERAL_STYLE: &'static str = "hljs-number";

pub const BOOL_LITERAL_STYLE: &'static str = "hljs-literal";

pub const ID_STYLE: &'static str = "hljs-title";

pub const KEYWORD_STYLE: &'static str = "hljs-keyword";

/// The text `val` wrapped in a span of the class `style`.
pub open spec fn styled(style: Seq<char>, val: Seq<char>) -> Seq<char> {
    "<span class =\""@ + style + "\">"@ + val + "</span>"@
}

/// The HTML of one token of highlighted code.
pub open spec fn token_html(t: Token) -> Seq<char> {
    match t.kind {
        TokenKind::Eof => Seq::empty(),
        TokenKind::Eol => "\n"@,
        TokenKind::Space => t.val@,
        TokenKind::LineComment | TokenKind::DelimitedComment => styled(COMMENT_STYLE@, t.val@),
        TokenKind::Literal(LiteralKind::Char(_)) | TokenKind::Literal(LiteralKind::Str(_)) => styled(
            TEXT_LITERAL_STYLE@,
            t.val@,
        ),
        TokenKind::Literal(LiteralKind::Num(_)) => styled(NUM_LITERAL_STYLE@, t.val@),
        TokenKind::Literal(LiteralKind::Bool(_)) => styled(BOOL_LITERAL_STYLE@, t.val@),
        TokenKind::Id(_) => styled(ID_STYLE@, t.val@),
        TokenKind::Symbol(_) => t.val@,
        TokenKind::Keyword(_) => styled(KEYWORD_STYLE@, t.val@),
    }
}

/// The HTML of the tokens `toks`, one after another.
pub open spec fn tokens_html(toks: Seq<Token>) -> Seq<char>
    decreases toks.len(),
{
    if toks.len() == 0 {
        Seq::empty()
    } else {
        tokens_html(toks.drop_last()) + token_html(toks.last())
    }
}

/// `html` is the highlighted HTML of the Nazm code `code`: the HTML of the tokens that the
/// code is lexed into.
pub open spec fn is_code_html(code: Seq<char>, html: Seq<char>) -> bool {
    exists|toks: Seq<Token>| tokenizes(code, toks, code.len() as int) && html == tokens_html(toks)
}

/// The text `val` wrapped in a span of the class `style`.
#[inline]
pub fn span(style: &str, val: &str) -> (r: String)
    ensures
        r@ == styled(style@, val@),
{
    let mut s = String::from_str("<span class =\"");
    s.append(style);
    s.append("\">");
    s.append(val);
    s.append("</span>");
    s
}

/// The HTML of the tokens, one after another.
pub fn tokens_to_html(tokens: &[Token]) -> (r: String)
    ensures
        r@ == tokens_html(tokens@),
{
    let mut final_html = String::new();
    let mut i: usize = 0;
    while i < tokens.len()
        invariant
            i <= tokens@.len(),
            final_html@ == tokens_html(tokens@.take(i as int)),
        decreases tokens@.len() - i,
    {
        let token = &tokens[i];
        let val = token.val;
        match &token.kind {
            TokenKind::Eof => {},
            TokenKind::Eol => final_html.append("\n"),
            TokenKind::Space => final_html.append(val),
            TokenKind::LineComment | TokenKind::DelimitedComment => {
                final_html.append(span(COMMENT_STYLE, val).as_str())
            },
            TokenKind::Literal(LiteralKind::Char(_)) | TokenKind::Literal(LiteralKind::Str(_)) => {
                final_html.append(span(TEXT_LITERAL_STYLE, val).as_str())
            },
            TokenKind::Literal(LiteralKind::Num(_)) => {
                final_html.append(span(NUM_LITERAL_STYLE, val).as_str())
            },
            TokenKind::Literal(LiteralKind::Bool(_)) => {
                final_html.append(span(BOOL_LITERAL_STYLE, val).as_str())
            },
            TokenKind::Id(_) => final_html.append(span(ID_STYLE, val).as_str()),
            TokenKind::Symbol(_) => final_html.append(val),
            TokenKind::Keyword(_) => final_html.append(span(KEYWORD_STYLE, val).as_str()),
        }
        proof {
            assert(tokens@.take(i + 1).drop_last() =~= tokens@.take(i as int));
        }
        i = i + 1;
    }
    proof {
        assert(tokens@.take(tokens@.len() as int) =~= tokens@);
    }
    final_html
}

/// How each token of highlighted code is written: a keyword in a span of the class
/// `hljs-keyword`, a name in `hljs-title`, a boolean in `hljs-literal`, a number in
/// `hljs-number`, a string or character in `hljs-string`, a comment in `hljs-comment`; a
/// symbol or a space is written as it is, a line end as `\n`, and the end of the text as
/// nothing.
pub proof fn lemma_token_styles(t: Token)
    ensures
        ({
            let open = "<span class =\""@;
            let mid = "\">"@;
            let close = "</span>"@;
            let h = tokens_html(seq![t]);
            &&& t.kind is Keyword ==> h == open + "hljs-keyword"@ + mid + t.val@ + close
            &&& t.kind is Id ==> h == open + "hljs-title"@ + mid + t.val@ + close
            &&& t.kind matches TokenKind::Literal(LiteralKind::Bool(_)) ==> h == open
                + "hljs-literal"@ + mid + t.val@ + close
            &&& t.kind matches TokenKind::Literal(LiteralKind::Num(_)) ==> h == open
                + "hljs-number"@ + mid + t.val@ + close
            &&& (t.kind matches TokenKind::Literal(LiteralKind::Str(_)) || t.kind matches TokenKind::Literal(
                LiteralKind::Char(_),
            )) ==> h == open + "hljs-string"@ + mid + t.val@ + close
            &&& (t.kind is LineComment || t.kind is DelimitedComment) ==> h == open
                + "hljs-comment"@ + mid + t.val@ + close
            &&& (t.kind is Symbol || t.kind is Space) ==> h == t.val@
            &&& t.kind is Eol ==> h == "\n"@
            &&& t.kind is Eof ==> h == Seq::<char>::empty()
        }),
{
    assert(seq![t].drop_last() =~= Seq::<Token>::empty());
    assert(seq![t].last() == t);
    assert(KEYWORD_STYLE@ == "hljs-keyword"@);
    assert(ID_STYLE@ == "hljs-title"@);
    assert(BOOL_LITERAL_STYLE@ == "hljs-literal"@);
    assert(NUM_LITERAL_STYLE@ == "hljs-number"@);
    assert(TEXT_LITERAL_STYLE@ == "hljs-string"@);
    assert(COMMENT_STYLE@ == "hljs-comment"@);
    assert(tokens_html(Seq::<Token>::empty()) == Seq::<char>::empty());
    assert(tokens_html(seq![t]) == tokens_html(Seq::<Token>::empty()) + token_html(t));
    assert(tokens_html(seq![t]) =~= token_html(t));
}

/// The HTML of tokens one after another is the HTML of each, one after another.
pub proof fn lemma_tokens_html_concat(a: Seq<Token>, b: Seq<Token>)
    ensures
        tokens_html(a + b) == tokens_html(a) + tokens_html(b),
    decreases b.len(),
{
    if b.len() == 0 {
        assert(a + b =~= a);
        assert(tokens_html(a) + tokens_html(b) =~= tokens_html(a));
    } else {
        lemma_tokens_html_concat(a, b.drop_last());
        assert((a + b).drop_last() =~= a + b.drop_last());
        assert((a + b).last() == b.last());
        assert(tokens_html(a) + tokens_html(b) =~= tokens_html(a) + tokens_html(b.drop_last())
            + token_html(b.last()));
    }
}

/// The highlighted HTML of the Nazm code `nazm_code`.
pub fn nazm_code_to_html(nazm_code: String) -> (r: String)
    requires
        4 * nazm_code@.len() + 16 <= usize::MAX,
    ensures
        is_code_html(nazm_code@, r@),
{
    let (tokens, ..) = LexerIter::new(nazm_code.as_str()).collect_all();
    let html = tokens_to_html(tokens.as_slice());
    proof {
        assert(tokenizes(nazm_code@, tokens@, nazm_code@.len() as int));
    }
    html
}

/// What the preprocessor reads of a markdown event.
#[derive(Debug, Clone, PartialEq, Eq)]
pub enum MdEventClass {
    /// The start of a fenced code block, with its language.
    FencedCodeStart(String),
    /// Text.
    Text(String),
    /// The end of a code block.
    CodeBlockEnd,
    /// The start of a link.
    LinkStart,
    /// The end of a link.
    LinkEnd,
    /// The start of an image.
    ImageStart,
    /// The end of an image.
    ImageEnd,
    /// The start of a heading.
    HeadingStart,
    /// The end of a heading.
    HeadingEnd,
    /// Any other event.
    Other,
}

/// The language of Nazm code blocks.
pub open spec fn is_nazm_lang(lang: Seq<char>) -> bool {
    lang == "نظم"@
}

/// Whether the events before `i` leave the preprocessor inside a Nazm code block.
pub open spec fn in_nazm_block(classes: Seq<MdEventClass>, i: int) -> bool
    decreases i,
{
    if i <= 0 {
        false
    } else {
        let inside = in_nazm_block(classes, i - 1);
        match classes[i - 1] {
            MdEventClass::FencedCodeStart(lang) => inside || is_nazm_lang(lang@),
            MdEventClass::CodeBlockEnd => false,
            _ => inside,
        }
    }
}

/// The HTML that opens a highlighted Nazm code block.
pub open spec fn nazm_block_open() -> Seq<char> {
    "\n\n<pre class=\"language-nazm\" data-highlighted=\"yes\"><code>"@
}

/// The HTML that closes a highlighted Nazm code block.
pub open spec fn nazm_block_close() -> Seq<char> {
    "</code></pre>\n\n"@
}

/// What the event `i` becomes: the start of a Nazm code block opens the highlighted block,
/// the text inside one is highlighted, and its end closes the block; any other event is kept
/// (`None`).
pub open spec fn replaced_by(classes: Seq<MdEventClass>, i: int, r: Option<String>) -> bool {
    let inside = in_nazm_block(classes, i);
    match classes[i] {
        MdEventClass::FencedCodeStart(lang) => if is_nazm_lang(lang@) {
            r matches Some(h) && h@ == nazm_block_open()
        } else {
            r is None
        },
        MdEventClass::Text(code) => if inside {
            r matches Some(h) && is_code_html(code@, h@)
        } else {
            r is None
        },
        MdEventClass::CodeBlockEnd => if inside {
            r matches Some(h) && h@ == nazm_block_close()
        } else {
            r is None
        },
        _ => r is None,
    }
}

/// The replacements of the markdown events of a chapter, one per event (see `replaced_by`).
pub fn nazm_code_blocks(classes: &Vec<MdEventClass>) -> (r: Vec<Option<String>>)
    requires
        forall|i: int|
            0 <= i < classes@.len() ==> (#[trigger] classes@[i] matches MdEventClass::Text(code)
                ==> 4 * code@.len() + 16 <= usize::MAX),
    ensures
        r@.len() == classes@.len(),
        forall|i: int| 0 <= i < classes@.len() ==> replaced_by(classes@, i, #[trigger] r@[i]),
{
    let mut replacements: Vec<Option<String>> = Vec::new();
    let mut nazm_code_block_is_found = false;
    let mut i: usize = 0;
    while i < classes.len()
        invariant
            i <= classes@.len(),
            replacements@.len() == i,
            nazm_code_block_is_found == in_nazm_block(classes@, i as int),
            forall|i: int|
                0 <= i < classes@.len() ==> (#[trigger] classes@[i] matches MdEventClass::Text(
                    code,
                ) ==> 4 * code@.len() + 16 <= usize::MAX),
            forall|k: int| 0 <= k < i ==> replaced_by(classes@, k, #[trigger] replacements@[k]),
        decreases classes@.len() - i,
    {
        let replacement = match &classes[i] {
            MdEventClass::FencedCodeStart(lang) => {
                if *lang == String::from_str("نظم") {
                    nazm_code_block_is_found = true;
                    Some(
                        String::from_str(
                            "\n\n<pre class=\"language-nazm\" data-highlighted=\"yes\"><code>",
                        ),
                    )
                } else {
                    None
                }
            },
            MdEventClass::Text(nazm_code) => {
                if nazm_code_block_is_found {
                    Some(nazm_code_to_html(nazm_code.clone()))
                } else {
                    None
                }
            },
            MdEventClass::CodeBlockEnd => {
                if nazm_code_block_is_found {
                    nazm_code_block_is_found = false;
                    Some(String::from_str("</code></pre>\n\n"))
                } else {
                    None
                }
            },
            _ => None,
        };
        replacements.push(replacement);
        i = i + 1;
    }
    replacements
}

/// The kinds of the events of `content` as the preprocessor reads them: a text too long for
/// the lexer to count its columns is read as any other event.
pub open spec fn readable_classes(content: Seq<char>) -> Seq<MdEventClass> {
    md_event_classes(content).map_values(
        |c: MdEventClass|
            match c {
                MdEventClass::Text(code) => if 4 * code@.len() + 16 <= usize::MAX {
                    c
                } else {
                    MdEventClass::Other
                },
                _ => c,
            },
    )
}

/// The events of `content`, with the event `i` replaced by raw HTML wherever
/// `replacements[i]` holds some.
pub open spec fn highlighted_origins(
    content: Seq<char>,
    replacements: Seq<Option<String>>,
) -> Seq<MdOrigin> {
    Seq::new(
        replacements.len(),
        |i: int|
            match replacements[i] {
                Some(h) => MdOrigin::Html(h@),
                None => MdOrigin::Parsed(content, i),
            },
    )
}

/// Highlights the Nazm code blocks of a chapter's markdown `content`: its events are replaced
/// as `nazm_code_blocks` says, and the result is the markdown text of the new events. Code too
/// long for the lexer to count its columns is left as it is.
pub fn handle_chapter(content: &str) -> (r: String)
    ensures
        exists|replacements: Seq<Option<String>>|
            {
                &&& replacements.len() == md_event_classes(content@).len()
                &&& forall|i: int|
                    0 <= i < replacements.len() ==> replaced_by(
                        readable_classes(content@),
                        i,
                        #[trigger] replacements[i],
                    )
                &&& r@ == cmark_markdown(highlighted_origins(content@, replacements))
            },
{
    let events = markdown_events(content);
    let ghost n = events@.len();
    let ghost parsed = events@;
    let mut classes: Vec<MdEventClass> = Vec::new();
    let mut i: usize = 0;
    while i < events.len()
        invariant
            events@ == parsed,
            n == parsed.len(),
            n == md_event_classes(content@).len(),
            forall|k: int| 0 <= k < n ==> #[trigger] parsed[k].origin() == MdOrigin::Parsed(content@, k),
            i <= n,
            classes@.len() == i,
            forall|k: int| 0 <= k < i ==> #[trigger] classes@[k] == readable_classes(content@)[k],
            forall|k: int|
                0 <= k < i ==> (#[trigger] classes@[k] matches MdEventClass::Text(code) ==> 4
                    * code@.len() + 16 <= usize::MAX),
        decreases n - i,
    {
        let mut class = event_class(&events[i]);
        let too_long = match &class {
            MdEventClass::Text(code) => code.as_str().unicode_len() > (usize::MAX - 16) / 4,
            _ => false,
        };
        if too_long {
            class = MdEventClass::Other;
        }
        proof {
            assert(parsed[i as int].origin() == MdOrigin::Parsed(content@, i as int));
            assert(class == readable_classes(content@)[i as int]);
        }
        classes.push(class);
        i = i + 1;
    }
    let mut replacements = nazm_code_blocks(&classes);
    let ghost repl = replacements@;
    let ghost target = highlighted_origins(content@, repl);
    let mut reversed: Vec<MdEvent> = Vec::new();
    let mut events = events;
    // Both lists are taken from their ends, so the new events come out reversed.
    while events.len() > 0
        invariant
            n == repl.len(),
            n == parsed.len(),
            target == highlighted_origins(content@, repl),
            forall|k: int| 0 <= k < n ==> #[trigger] parsed[k].origin() == MdOrigin::Parsed(content@, k),
            events@.len() + reversed@.len() == n,
            events@ == parsed.take(events@.len() as int),
            replacements@ == repl.take(events@.len() as int),
            forall|j: int|
                0 <= j < reversed@.len() ==> #[trigger] reversed@[j].origin() == target[n - 1 - j],
        decreases events@.len(),
    {
        let event = events.pop().unwrap();
        let replacement = replacements.pop().unwrap();
        let ghost k = events@.len() as int;
        proof {
            assert(parsed[k].origin() == MdOrigin::Parsed(content@, k));
        }
        match replacement {
            Some(html) => reversed.push(html_event(html)),
            None => reversed.push(event),
        }
    }
    let mut new_events: Vec<MdEvent> = Vec::new();
    while reversed.len() > 0
        invariant
            reversed@.len() + new_events@.len() == n,
            forall|j: int|
                0 <= j < reversed@.len() ==> #[trigger] reversed@[j].origin() == target[n - 1 - j],
            forall|j: int| 0 <= j < new_events@.len() ==> #[trigger] new_events@[j].origin() == target[j],
        decreases reversed@.len(),
    {
        let event = reversed.pop().unwrap();
        new_events.push(event);
    }
    proof {
        let origins = new_events@.map_values(|e: MdEvent| e.origin());
        assert(origins =~= target);
        let old_classes = parsed.map_values(|e: MdEvent| e.class());
        let new_classes = new_events@.map_values(|e: MdEvent| e.class());
        assert forall|k: int| 0 <= k < n implies #[trigger] new_classes[k] == old_classes[k] || (
        new_classes[k] == MdEventClass::Other && tag_neutral(old_classes[k])) by {
            assert(parsed[k].origin() == MdOrigin::Parsed(content@, k));
            assert(new_events@[k].origin() == target[k]);
            assert(replaced_by(classes@, k, repl[k]));
        }
        lemma_neutral_replacement(old_classes, new_classes, 0, 0, false);
        assert(classes@ =~= readable_classes(content@));
    }
    let r = events_to_markdown(new_events);
    proof {
        assert(forall|i: int|
            0 <= i < repl.len() ==> replaced_by(readable_classes(content@), i, #[trigger] repl[i]));
        assert(r@ == cmark_markdown(highlighted_origins(content@, repl)));
    }
    r
}

} // verus!
