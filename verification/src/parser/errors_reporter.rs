//! Reporting what the parser found wrong: the errors of the lexer and of the parse, each
//! turned into a diagnostic with a message and the marked part of the file.
use super::parse_methods::{ParseErr, ParseResult};
use super::terminal::SemicolonSymbol;
use crate::diagnostics::code_window::{CodeMark, CodeWindow, MarkKind};
use crate::diagnostics::{Diagnostic, DiagnosticLevel, PhaseDiagnostics};
use crate::lexer::error::{LexerError, LexerErrorKind};
use crate::lexer::token::{Base, NumKind, SymbolKind, Token, TokenKind};
use crate::span::{Span, SpanCursor};
use crate::text::{decimal_digits, decimal_text};
use vstd::prelude::*;

verus! {

/// The message of the diagnostic for a lexer error of the kind `kind`.
pub open spec fn lexer_error_msg(kind: LexerErrorKind) -> Seq<char> {
    match kind {
        LexerErrorKind::UnknownToken => "رمز غير مدعوم"@,
        LexerErrorKind::UnclosedStr => "علامة تنصيص مفقودة"@,
        LexerErrorKind::UnclosedChar => "علامة تنصيص مفقودة"@,
        LexerErrorKind::UnclosedDelimitedComment => "لم يتم إغلاق التعليق"@,
        LexerErrorKind::ZeroChars => "لا يوجد حروف ولكن يُتوقع حرف واحد بين علامتي التنصيص"@,
        LexerErrorKind::ManyChars => "يوجد أكثر من حرف ولكن يُتوقع حرف واحد بين علامتي التنصيص"@,
        LexerErrorKind::KufrOrInvalidChar => "يحتوي على رمز كُفر أو رمز غير مدعوم"@,
        LexerErrorKind::UnicodeCodePointHexDigitOnly => "رمز اليونيكود يجب أن يحتوي فقط على أرقام بالنظام العددي السُداسي عشر"@,
        LexerErrorKind::InvalidUnicodeCodePoint => "رمز يونيكود غير صالح"@,
        LexerErrorKind::UnknownEscapeSequence => "حرف تسلسل غير صالح"@,
        LexerErrorKind::MissingDigitsAfterBasePrefix => "يُتوقع أرقام بعد رمز النظام العددي"@,
        LexerErrorKind::MissingDigitsAfterExponent => "يُتوقع أرقام الأس"@,
        LexerErrorKind::InvalidIntBasePrefix => "نظام عددي غير مدعوم"@,
        LexerErrorKind::InvalidNumSuffix => "لاحقة غير صحيحة للعدد"@,
        LexerErrorKind::InvalidFloatSuffix => "لاحقة غير صحيحة للعدد العشري"@,
        LexerErrorKind::InvalidIntSuffix => "لاحقة غير صالحة للعدد الصحيح"@,
        LexerErrorKind::NumIsOutOfRange(_) => "قيمة العدد خارج النطاق المسموح به"@,
        LexerErrorKind::InvalidDigitForBase(base) => "رقم غير صالح في النظام العددي "@ + base_name(base),
    }
}

/// How the numeral system `base` is named in messages.
pub open spec fn base_name(base: Base) -> Seq<char> {
    match base {
        Base::Bin => "الثُنائي"@,
        Base::Oct => "الثُماني"@,
        Base::Dec => "العَشري"@,
        Base::Hex => "السُداسي عشر"@,
    }
}

/// The label of the place of a lexer error of the kind `kind`.
pub open spec fn lexer_error_label(kind: LexerErrorKind) -> Seq<char> {
    match kind {
        LexerErrorKind::UnclosedStr => "قٌم بإضافة `\"`"@,
        LexerErrorKind::UnclosedChar => "قٌم بإضافة `'`"@,
        LexerErrorKind::UnclosedDelimitedComment => "تم بدء التعليق هنا"@,
        _ => ""@,
    }
}

/// The greatest value of the number kind of `kind`.
pub open spec fn num_kind_max(kind: NumKind) -> nat {
    match kind {
        NumKind::I(_) => isize::MAX as nat,
        NumKind::I1(_) => i8::MAX as nat,
        NumKind::I2(_) => i16::MAX as nat,
        NumKind::I4(_) => i32::MAX as nat,
        NumKind::I8(_) => i64::MAX as nat,
        NumKind::U(_) => usize::MAX as nat,
        NumKind::U1(_) => u8::MAX as nat,
        NumKind::U2(_) => u16::MAX as nat,
        NumKind::U4(_) => u32::MAX as nat,
        NumKind::U8(_) | NumKind::UnspecifiedInt(_) => u64::MAX as nat,
    }
}

/// The help chained after the diagnostic of a lexer error of the kind `kind`, if any.
pub open spec fn lexer_error_help(kind: LexerErrorKind) -> Option<Seq<char>> {
    match kind {
        LexerErrorKind::InvalidNumSuffix => Some("اللاحقات الصالحة للعدد هى (ص، ص1، ص2، ص4، ص8، م، م1، م2، م4، م8، ع4، ع8)"@),
        LexerErrorKind::InvalidFloatSuffix => Some("اللاحقات الصالحة للعدد العشري هى (ع4، ع8)"@),
        LexerErrorKind::InvalidIntSuffix => Some("اللاحقات الصالحة للعدد الصحيح هى (ص، ص1، ص2، ص4، ص8، م، م1، م2، م4، م8)"@),
        LexerErrorKind::NumIsOutOfRange(num_kind) => Some(
            "أكبر قيمة من نفس نوع العدد هى `"@ + decimal_digits(num_kind_max(num_kind)) + "`"@,
        ),
        _ => None,
    }
}

/// The span a lexer error marks: its columns on its token's lines, or the whole token when
/// it has no columns.
pub open spec fn lexer_error_span(err: LexerError, token_span: Span) -> Span {
    if err.len > 0 {
        Span {
            start: SpanCursor { line: token_span.start.line, col: err.col },
            end: SpanCursor { line: token_span.end.line, col: (err.col + err.len) as usize },
        }
    } else {
        token_span
    }
}

/// The views of a sequence of strings.
pub open spec fn labels_view(v: Seq<String>) -> Seq<Seq<char>> {
    Seq::new(v.len(), |i: int| v[i]@)
}

/// The mark `m` marks `span` as `kind`, with the labels `labels`.
pub open spec fn is_mark(m: CodeMark, span: Span, kind: MarkKind, labels: Seq<Seq<char>>) -> bool {
    &&& m.span == span
    &&& m.kind == kind
    &&& labels_view(m.labels@) == labels
}

/// `d` is the error reported with the message `msg` on `span`, labelled `primary`, with the
/// secondary marks `secondaries`, and nothing chained to it.
pub open spec fn is_report(
    d: Diagnostic,
    msg: Seq<char>,
    span: Span,
    primary: Seq<char>,
    secondaries: Seq<(Span, Seq<Seq<char>>)>,
) -> bool {
    &&& d.level() == DiagnosticLevel::Error
    &&& d.msg() == msg
    &&& d.code_window() matches Some(w) && {
        &&& w.start == span.start
        &&& w.marks@.len() == secondaries.len() + 1
        &&& is_mark(w.marks@[0], span, MarkKind::Error, seq![primary])
        &&& forall|i: int|
            0 <= i < secondaries.len() ==> is_mark(
                #[trigger] w.marks@[i + 1],
                secondaries[i].0,
                MarkKind::Secondary,
                secondaries[i].1,
            )
    }
}

/// The secondary marks of the diagnostic of a lexer error on a token with `token_span`: an
/// unclosed quote is pointed at.
pub open spec fn lexer_error_secondaries(kind: LexerErrorKind, token_span: Span) -> Seq<
    (Span, Seq<Seq<char>>),
> {
    if kind is UnclosedStr || kind is UnclosedChar {
        seq![
            (
                Span {
                    start: token_span.start,
                    end: SpanCursor {
                        line: token_span.start.line,
                        col: (token_span.start.col + 1) as usize,
                    },
                },
                seq!["لم يتم إغلاق علامة التنصيص هذه"@],
            ),
        ]
    } else {
        Seq::empty()
    }
}

/// `d` is the diagnostic of the lexer error `err` on a token with `token_span`.
pub open spec fn is_lexer_error_report(d: Diagnostic, err: LexerError, token_span: Span) -> bool {
    &&& d.level() == DiagnosticLevel::Error
    &&& d.msg() == lexer_error_msg(err.kind)
    &&& d.code_window() matches Some(w) && {
        let span = lexer_error_span(err, token_span);
        let secondaries = lexer_error_secondaries(err.kind, token_span);
        &&& w.start == span.start
        &&& w.marks@.len() == secondaries.len() + 1
        &&& is_mark(w.marks@[0], span, MarkKind::Error, seq![lexer_error_label(err.kind)])
        &&& forall|i: int|
            0 <= i < secondaries.len() ==> is_mark(
                #[trigger] w.marks@[i + 1],
                secondaries[i].0,
                MarkKind::Secondary,
                secondaries[i].1,
            )
    }
    &&& match lexer_error_help(err.kind) {
        None => d.chained().len() == 0,
        Some(help) => d.chained().len() == 1 && d.chained()[0].level() == DiagnosticLevel::Help
            && d.chained()[0].msg() == help && d.chained()[0].code_window() is None
            && d.chained()[0].chained().len() == 0,
    }
}

fn base_name_text(base: Base) -> (r: &'static str)
    ensures
        r@ == base_name(base),
{
    match base {
        Base::Bin => "الثُنائي",
        Base::Oct => "الثُماني",
        Base::Dec => "العَشري",
        Base::Hex => "السُداسي عشر",
    }
}

/// The message of the diagnostic for a lexer error of the kind `kind`.
fn lexer_error_msg_text(kind: LexerErrorKind) -> (r: String)
    ensures
        r@ == lexer_error_msg(kind),
{
    match kind {
        LexerErrorKind::UnknownToken => String::from_str("رمز غير مدعوم"),
        LexerErrorKind::UnclosedStr => String::from_str("علامة تنصيص مفقودة"),
        LexerErrorKind::UnclosedChar => String::from_str("علامة تنصيص مفقودة"),
        LexerErrorKind::UnclosedDelimitedComment => String::from_str("لم يتم إغلاق التعليق"),
        LexerErrorKind::ZeroChars => String::from_str("لا يوجد حروف ولكن يُتوقع حرف واحد بين علامتي التنصيص"),
        LexerErrorKind::ManyChars => String::from_str("يوجد أكثر من حرف ولكن يُتوقع حرف واحد بين علامتي التنصيص"),
        LexerErrorKind::KufrOrInvalidChar => String::from_str("يحتوي على رمز كُفر أو رمز غير مدعوم"),
        LexerErrorKind::UnicodeCodePointHexDigitOnly => String::from_str("رمز اليونيكود يجب أن يحتوي فقط على أرقام بالنظام العددي السُداسي عشر"),
        LexerErrorKind::InvalidUnicodeCodePoint => String::from_str("رمز يونيكود غير صالح"),
        LexerErrorKind::UnknownEscapeSequence => String::from_str("حرف تسلسل غير صالح"),
        LexerErrorKind::MissingDigitsAfterBasePrefix => String::from_str("يُتوقع أرقام بعد رمز النظام العددي"),
        LexerErrorKind::MissingDigitsAfterExponent => String::from_str("يُتوقع أرقام الأس"),
        LexerErrorKind::InvalidIntBasePrefix => String::from_str("نظام عددي غير مدعوم"),
        LexerErrorKind::InvalidNumSuffix => String::from_str("لاحقة غير صحيحة للعدد"),
        LexerErrorKind::InvalidFloatSuffix => String::from_str("لاحقة غير صحيحة للعدد العشري"),
        LexerErrorKind::InvalidIntSuffix => String::from_str("لاحقة غير صالحة للعدد الصحيح"),
        LexerErrorKind::NumIsOutOfRange(_) => String::from_str("قيمة العدد خارج النطاق المسموح به"),
        LexerErrorKind::InvalidDigitForBase(base) => {
            let mut msg = String::from_str("رقم غير صالح في النظام العددي ");
            msg.append(base_name_text(base));
            msg
        },
    }
}

/// The label of the place of a lexer error of the kind `kind`.
fn lexer_error_label_text(kind: LexerErrorKind) -> (r: String)
    ensures
        r@ == lexer_error_label(kind),
{
    match kind {
        LexerErrorKind::UnclosedStr => String::from_str("قٌم بإضافة `\"`"),
        LexerErrorKind::UnclosedChar => String::from_str("قٌم بإضافة `'`"),
        LexerErrorKind::UnclosedDelimitedComment => String::from_str("تم بدء التعليق هنا"),
        _ => String::from_str(""),
    }
}

/// The greatest value of the number kind of `kind`.
fn num_kind_max_value(kind: NumKind) -> (r: u64)
    ensures
        r as nat == num_kind_max(kind),
{
    match kind {
        NumKind::I(_) => isize::MAX as u64,
        NumKind::I1(_) => i8::MAX as u64,
        NumKind::I2(_) => i16::MAX as u64,
        NumKind::I4(_) => i32::MAX as u64,
        NumKind::I8(_) => i64::MAX as u64,
        NumKind::U(_) => usize::MAX as u64,
        NumKind::U1(_) => u8::MAX as u64,
        NumKind::U2(_) => u16::MAX as u64,
        NumKind::U4(_) => u32::MAX as u64,
        NumKind::U8(_) | NumKind::UnspecifiedInt(_) => u64::MAX,
    }
}

/// The help chained after the diagnostic of a lexer error of the kind `kind`, if any.
fn lexer_error_help_text(kind: LexerErrorKind) -> (r: Option<String>)
    ensures
        match lexer_error_help(kind) {
            None => r is None,
            Some(h) => r matches Some(s) && s@ == h,
        },
{
    match kind {
        LexerErrorKind::InvalidNumSuffix => Some(String::from_str("اللاحقات الصالحة للعدد هى (ص، ص1، ص2، ص4، ص8، م، م1، م2، م4، م8، ع4، ع8)")),
        LexerErrorKind::InvalidFloatSuffix => Some(String::from_str("اللاحقات الصالحة للعدد العشري هى (ع4، ع8)")),
        LexerErrorKind::InvalidIntSuffix => Some(String::from_str("اللاحقات الصالحة للعدد الصحيح هى (ص، ص1، ص2، ص4، ص8، م، م1، م2، م4، م8)")),
        LexerErrorKind::NumIsOutOfRange(num_kind) => {
            let mut help = String::from_str("أكبر قيمة من نفس نوع العدد هى `");
            let max_num = decimal_text(num_kind_max_value(num_kind));
            help.append(max_num.as_str());
            help.append("`");
            Some(help)
        },
        _ => None,
    }
}

/// The views of the secondary labels of a report: each span with the views of its labels.
pub open spec fn secondaries_view(v: Seq<(Span, Vec<String>)>) -> Seq<(Span, Seq<Seq<char>>)> {
    Seq::new(v.len(), |i: int| (v[i].0, labels_view(v[i].1@)))
}

/// The index of the first token from `i` on that is not trivia (or the number of tokens).
pub open spec fn next_non_trivia(tokens: Seq<Token>, i: int) -> int
    decreases tokens.len() - i,
{
    if i >= tokens.len() || i < 0 {
        i
    } else if crate::parser::tokens_iter::is_trivia(tokens[i].kind) {
        next_non_trivia(tokens, i + 1)
    } else {
        i
    }
}

/// The index of the last token from `i` back that is not trivia (or -1).
pub open spec fn prev_non_trivia(tokens: Seq<Token>, i: int) -> int
    decreases i + 1,
{
    if i < 0 || i >= tokens.len() {
        i
    } else if crate::parser::tokens_iter::is_trivia(tokens[i].kind) {
        prev_non_trivia(tokens, i - 1)
    } else {
        i
    }
}

/// Looking for a token that is not trivia passes over line ends, comments (line or
/// delimited) and spaces, and stops at names, keywords, symbols and literals; so does looking
/// back.
pub proof fn lemma_non_trivia_search(tokens: Seq<Token>, i: int)
    requires
        0 <= i < tokens.len(),
    ensures
        (tokens[i].kind is Eol || tokens[i].kind is LineComment || tokens[i].kind
            is DelimitedComment || tokens[i].kind is Space) ==> next_non_trivia(tokens, i) > i
            && prev_non_trivia(tokens, i) < i,
        (tokens[i].kind is Id || tokens[i].kind is Keyword || tokens[i].kind is Symbol
            || tokens[i].kind is Literal) ==> next_non_trivia(tokens, i) == i
            && prev_non_trivia(tokens, i) == i,
{
    lemma_next_non_trivia_at_least(tokens, i + 1);
    lemma_prev_non_trivia_at_most(tokens, i - 1);
}

proof fn lemma_next_non_trivia_at_least(tokens: Seq<Token>, i: int)
    requires
        0 <= i,
    ensures
        next_non_trivia(tokens, i) >= i,
    decreases tokens.len() - i,
{
    if i < tokens.len() && crate::parser::tokens_iter::is_trivia(tokens[i].kind) {
        lemma_next_non_trivia_at_least(tokens, i + 1);
    }
}

proof fn lemma_prev_non_trivia_at_most(tokens: Seq<Token>, i: int)
    requires
        i < tokens.len(),
    ensures
        prev_non_trivia(tokens, i) <= i,
    decreases i + 1,
{
    if i >= 0 && crate::parser::tokens_iter::is_trivia(tokens[i].kind) {
        lemma_prev_non_trivia_at_most(tokens, i - 1);
    }
}

/// What the parse failed at, as a report shows it: the found token's span, its text, and the
/// label of its mark; past the end of the tokens, the zero-column span after the last token.
pub open spec fn found_token(tokens: Seq<Token>, idx: int) -> (Span, Seq<char>, Seq<char>) {
    if 0 <= idx < tokens.len() {
        (tokens[idx].span, tokens[idx].val@, "رمز غير متوقع"@)
    } else {
        let last = tokens.last().span;
        (
            Span { start: last.end, end: last.end },
            "نهاية الملف"@,
            "تم الوصول إلى نهاية الملف"@,
        )
    }
}

/// Reports the diagnostics of the parse of one file, over the tokens of that file.
pub struct ParseErrorsReporter<'a> {
    tokens: &'a [Token<'a>],
    diagnostics: PhaseDiagnostics<'a>,
}

impl<'a> ParseErrorsReporter<'a> {
    pub closed spec fn tokens(&self) -> Seq<Token<'a>> {
        self.tokens@
    }

    pub closed spec fn diagnostics(&self) -> Seq<Diagnostic> {
        self.diagnostics.diagnostics@
    }

    pub closed spec fn file_path(&self) -> &'a str {
        self.diagnostics.file_path
    }

    pub closed spec fn file_lines(&self) -> Seq<&'a str> {
        self.diagnostics.file_lines@
    }

    pub fn new(file_path: &'a str, file_lines: &'a [&'a str], tokens: &'a [Token<'a>]) -> (r: Self)
        ensures
            r.tokens() == tokens@,
            r.diagnostics().len() == 0,
            r.file_path() == file_path,
            r.file_lines() == file_lines@,
    {
        Self { tokens, diagnostics: PhaseDiagnostics::new(file_path, file_lines) }
    }

    /// The diagnostics reported.
    pub fn into_diagnostics(self) -> (r: PhaseDiagnostics<'a>)
        ensures
            r.diagnostics@ == self.diagnostics(),
            r.file_path == self.file_path(),
            r.file_lines@ == self.file_lines(),
    {
        self.diagnostics
    }

    /// Reports an error with the message `msg` on `span`, labelled `primary_label`, and the
    /// secondary marks `secondary_labels` in their order.
    pub fn report(
        &mut self,
        msg: String,
        span: Span,
        primary_label: String,
        secondary_labels: Vec<(Span, Vec<String>)>,
    )
        ensures
            final(self).tokens() == old(self).tokens(),
            final(self).file_path() == old(self).file_path(),
            final(self).file_lines() == old(self).file_lines(),
            final(self).diagnostics().len() == old(self).diagnostics().len() + 1,
            final(self).diagnostics().take(old(self).diagnostics().len() as int) == old(
                self,
            ).diagnostics(),
            is_report(
                final(self).diagnostics().last(),
                msg@,
                span,
                primary_label@,
                secondaries_view(secondary_labels@),
            ),
            final(self).diagnostics().last().chained().len() == 0,
    {
        let mut code_window = CodeWindow::new(span.start);
        let ghost primary = primary_label@;
        code_window.mark_error(span, vec![primary_label]);
        proof {
            assert(labels_view(code_window.marks@[0].labels@) =~= seq![primary]);
        }
        let ghost all = secondaries_view(secondary_labels@);
        let total = secondary_labels.len();
        let mut rest = secondary_labels;
        let mut done: usize = 0;
        while rest.len() > 0
            invariant
                code_window.start == span.start,
                all.len() == total,
                rest@.len() + done == all.len(),
                secondaries_view(rest@) == all.skip(done as int),
                code_window.marks@.len() == done + 1,
                is_mark(code_window.marks@[0], span, MarkKind::Error, seq![primary]),
                forall|i: int|
                    0 <= i < done ==> is_mark(
                        #[trigger] code_window.marks@[i + 1],
                        all[i].0,
                        MarkKind::Secondary,
                        all[i].1,
                    ),
            decreases rest@.len(),
        {
            let ghost before = rest@;
            let (span, multiline_label) = rest.remove(0);
            proof {
                assert(secondaries_view(before)[0] == all[done as int]);
                assert forall|j: int| 0 <= j < rest@.len() implies #[trigger] secondaries_view(
                    rest@,
                )[j] == all.skip(done + 1)[j] by {
                    assert(rest@[j] == before[j + 1]);
                    assert(secondaries_view(before)[j + 1] == all.skip(done as int)[j + 1]);
                }
                assert(secondaries_view(rest@) =~= all.skip(done + 1));
            }
            code_window.mark_secondary(span, multiline_label);
            done = done + 1;
        }
        let diagnostic = Diagnostic::error(msg, Some(code_window));
        let ghost before = self.diagnostics.diagnostics@;
        self.diagnostics.push(diagnostic);
        proof {
            assert(self.diagnostics.diagnostics@.take(before.len() as int) =~= before);
        }
    }

    /// Reports each lexer error, in order: one diagnostic per error (see
    /// `is_lexer_error_report`), over the token the error belongs to.
    pub fn report_lexer_errors(&mut self, lexer_errors: &[LexerError])
        requires
            forall|k: int|
                0 <= k < lexer_errors@.len() ==> #[trigger] lexer_errors@[k].token_idx < old(
                    self,
                ).tokens().len(),
            forall|k: int|
                0 <= k < lexer_errors@.len() ==> #[trigger] lexer_errors@[k].col
                    + lexer_errors@[k].len <= usize::MAX,
            forall|k: int|
                0 <= k < lexer_errors@.len() ==> old(self).tokens()[#[trigger] lexer_errors@[k].token_idx as int].span.start.col
                    < usize::MAX,
        ensures
            final(self).tokens() == old(self).tokens(),
            final(self).file_path() == old(self).file_path(),
            final(self).file_lines() == old(self).file_lines(),
            final(self).diagnostics().len() == old(self).diagnostics().len()
                + lexer_errors@.len(),
            final(self).diagnostics().take(old(self).diagnostics().len() as int) == old(
                self,
            ).diagnostics(),
            forall|k: int|
                0 <= k < lexer_errors@.len() ==> is_lexer_error_report(
                    #[trigger] final(self).diagnostics()[old(self).diagnostics().len() + k],
                    lexer_errors@[k],
                    old(self).tokens()[lexer_errors@[k].token_idx as int].span,
                ),
    {
        let ghost start = self.diagnostics();
        let mut i: usize = 0;
        while i < lexer_errors.len()
            invariant
                self.tokens() == old(self).tokens(),
                self.file_path() == old(self).file_path(),
                self.file_lines() == old(self).file_lines(),
                start == old(self).diagnostics(),
                i <= lexer_errors@.len(),
                self.diagnostics().len() == start.len() + i,
                self.diagnostics().take(start.len() as int) == start,
                forall|k: int|
                    0 <= k < lexer_errors@.len() ==> #[trigger] lexer_errors@[k].token_idx
                        < self.tokens().len(),
                forall|k: int|
                    0 <= k < lexer_errors@.len() ==> #[trigger] lexer_errors@[k].col
                        + lexer_errors@[k].len <= usize::MAX,
                forall|k: int|
                    0 <= k < lexer_errors@.len() ==> self.tokens()[#[trigger] lexer_errors@[k].token_idx as int].span.start.col
                        < usize::MAX,
                forall|k: int|
                    0 <= k < i ==> is_lexer_error_report(
                        #[trigger] self.diagnostics()[start.len() + k],
                        lexer_errors@[k],
                        self.tokens()[lexer_errors@[k].token_idx as int].span,
                    ),
            decreases lexer_errors@.len() - i,
        {
            let err = lexer_errors[i];
            assert(err.token_idx < self.tokens().len());
            let token_span = self.tokens[err.token_idx].span;
            let err_span = if err.len > 0 {
                Span {
                    start: SpanCursor { line: token_span.start.line, col: err.col },
                    end: SpanCursor { line: token_span.end.line, col: err.col + err.len },
                }
            } else {
                token_span
            };
            let mut secondary_labels: Vec<(Span, Vec<String>)> = vec![];
            match err.kind {
                LexerErrorKind::UnclosedStr | LexerErrorKind::UnclosedChar => {
                    let quote_span = Span {
                        start: token_span.start,
                        end: SpanCursor {
                            line: token_span.start.line,
                            col: token_span.start.col + 1,
                        },
                    };
                    let label = String::from_str("لم يتم إغلاق علامة التنصيص هذه");
                    let labels = vec![label];
                    proof {
                        assert(labels_view(labels@) =~= seq!["لم يتم إغلاق علامة التنصيص هذه"@]);
                    }
                    secondary_labels.push((quote_span, labels));
                },
                _ => {},
            }
            proof {
                assert(secondaries_view(secondary_labels@) =~= lexer_error_secondaries(
                    err.kind,
                    token_span,
                ));
            }
            let ghost before = self.diagnostics();
            self.report(
                lexer_error_msg_text(err.kind),
                err_span,
                lexer_error_label_text(err.kind),
                secondary_labels,
            );
            let help = lexer_error_help_text(err.kind);
            match help {
                Some(help) => {
                    self.diagnostics.chain_on_last(Diagnostic::help(help, None));
                },
                None => {},
            }
            proof {
                let n = before.len() as int;
                assert(self.diagnostics().take(n) =~= before.take(n)) by {
                    assert(self.diagnostics().take(n) =~= self.diagnostics().take(n + 1).take(n));
                }
                assert forall|k: int| 0 <= k < i + 1 implies is_lexer_error_report(
                    #[trigger] self.diagnostics()[start.len() + k],
                    lexer_errors@[k],
                    self.tokens()[lexer_errors@[k].token_idx as int].span,
                ) by {
                    if k < i {
                        assert(self.diagnostics()[start.len() + k] == before[start.len() + k]) by {
                            assert(self.diagnostics().take(n)[start.len() + k] == before.take(n)[start.len() + k]);
                        }
                    }
                }
                assert(self.diagnostics().take(start.len() as int) =~= start) by {
                    assert(self.diagnostics().take(start.len() as int) =~= self.diagnostics().take(n).take(start.len() as int));
                    assert(before.take(start.len() as int) =~= before.take(n).take(start.len() as int));
                }
            }
            i = i + 1;
        }
    }

    /// Reports that `expected` was expected where the parse failed (see `found_token`).
    pub fn report_expected(
        &mut self,
        expected: &str,
        err: &ParseErr,
        secondary_labels: Vec<(Span, Vec<String>)>,
    )
        requires
            err.found_token_index >= old(self).tokens().len() ==> old(self).tokens().len() > 0,
        ensures
            final(self).tokens() == old(self).tokens(),
            final(self).file_path() == old(self).file_path(),
            final(self).file_lines() == old(self).file_lines(),
            final(self).diagnostics().len() == old(self).diagnostics().len() + 1,
            final(self).diagnostics().take(old(self).diagnostics().len() as int) == old(
                self,
            ).diagnostics(),
            ({
                let found = found_token(old(self).tokens(), err.found_token_index as int);
                is_report(
                    final(self).diagnostics().last(),
                    "يُتوقع "@ + expected@ + "، ولكن تم العثور على `"@ + found.1 + "`"@,
                    found.0,
                    found.2,
                    secondaries_view(secondary_labels@),
                )
            }),
            final(self).diagnostics().last().chained().len() == 0,
    {
        let (found_token_span, found_token_val, primary_label) = if err.found_token_index
            < self.tokens.len() {
            let token = &self.tokens[err.found_token_index];
            (token.span, token.val, String::from_str("رمز غير متوقع"))
        } else {
            let last_span = self.tokens[self.tokens.len() - 1].span;
            (
                Span::len_after(&last_span, 1),
                "نهاية الملف",
                String::from_str("تم الوصول إلى نهاية الملف"),
            )
        };
        let mut msg = String::from_str("يُتوقع ");
        msg.append(expected);
        msg.append("، ولكن تم العثور على `");
        msg.append(found_token_val);
        msg.append("`");
        self.report(msg, found_token_span, primary_label, secondary_labels);
    }

    /// Reports what was expected where a comma-separated list failed: when the parse failed
    /// at a comma, the item after it (past any trivia) was missing; otherwise the comma was.
    pub fn report_expected_comma_or_item(
        &mut self,
        expected: &str,
        err: &ParseErr,
        secondary_labels: Vec<(Span, Vec<String>)>,
    )
        requires
            old(self).tokens().len() > 0,
        ensures
            final(self).tokens() == old(self).tokens(),
            final(self).file_path() == old(self).file_path(),
            final(self).file_lines() == old(self).file_lines(),
            final(self).diagnostics().len() == old(self).diagnostics().len() + 1,
            final(self).diagnostics().take(old(self).diagnostics().len() as int) == old(
                self,
            ).diagnostics(),
            ({
                let toks = old(self).tokens();
                let idx = err.found_token_index as int;
                let at_comma = idx < toks.len() && toks[idx].kind == TokenKind::Symbol(
                    SymbolKind::Comma,
                );
                let found_idx = if at_comma {
                    next_non_trivia(toks, idx + 1)
                } else {
                    idx
                };
                let exp = if at_comma {
                    expected@
                } else {
                    "يُتوقع فاصلة `،`"@
                };
                let found = found_token(toks, found_idx);
                is_report(
                    final(self).diagnostics().last(),
                    "يُتوقع "@ + exp + "، ولكن تم العثور على `"@ + found.1 + "`"@,
                    found.0,
                    found.2,
                    secondaries_view(secondary_labels@),
                )
            }),
            final(self).diagnostics().last().chained().len() == 0,
    {
        // Here we try to find if the error was occured as the comma is not found (so display that comma is expected)
        // or the comma is found but the the item after it is missing (so display that item is expected)
        let mut comma_err = *err;
        if err.found_token_index < self.tokens.len() {
            let at_comma = match &self.tokens[err.found_token_index].kind {
                TokenKind::Symbol(SymbolKind::Comma) => true,
                _ => false,
            };
            if at_comma {
                let mut i = err.found_token_index + 1;
                while i < self.tokens.len()
                    invariant
                        *self == *old(self),
                        err.found_token_index < i <= self.tokens@.len(),
                        next_non_trivia(self.tokens@, err.found_token_index + 1)
                            == next_non_trivia(self.tokens@, i as int),
                    ensures
                        err.found_token_index < i <= self.tokens@.len(),
                        i == next_non_trivia(self.tokens@, err.found_token_index + 1),
                    decreases self.tokens@.len() - i,
                {
                    let trivia = match &self.tokens[i].kind {
                        TokenKind::Eol | TokenKind::DelimitedComment | TokenKind::LineComment
                        | TokenKind::Space => true,
                        _ => false,
                    };
                    if !trivia {
                        break ;
                    }
                    i += 1;
                }
                comma_err = ParseErr { found_token_index: i };
                assert(comma_err.found_token_index == next_non_trivia(
                    self.tokens@,
                    err.found_token_index + 1,
                ));
            }
        }
        let expected = if comma_err.found_token_index > err.found_token_index {
            expected
        } else {
            "يُتوقع فاصلة `،`"
        };
        self.report_expected(expected, &comma_err, secondary_labels);
    }

    /// Reports an opening delimiter that was not closed.
    pub fn report_unclosed_delimiter(&mut self, open_delim_span: Span)
        ensures
            final(self).tokens() == old(self).tokens(),
            final(self).file_path() == old(self).file_path(),
            final(self).file_lines() == old(self).file_lines(),
            final(self).diagnostics().len() == old(self).diagnostics().len() + 1,
            final(self).diagnostics().take(old(self).diagnostics().len() as int) == old(
                self,
            ).diagnostics(),
            is_report(
                final(self).diagnostics().last(),
                "لم يتم إغلاق القوس"@,
                open_delim_span,
                "يجب إغلاق هذا القوس"@,
                Seq::empty(),
            ),
    {
        let secondary: Vec<(Span, Vec<String>)> = vec![];
        proof {
            assert(secondaries_view(secondary@) =~= Seq::<(Span, Seq<Seq<char>>)>::empty());
        }
        self.report(
            String::from_str("لم يتم إغلاق القوس"),
            open_delim_span,
            String::from_str("يجب إغلاق هذا القوس"),
            secondary,
        );
    }

    /// Reports a missing semicolon: the error marks the column after the last token before
    /// the one the parse failed at (past any trivia), and the found token is marked too.
    pub fn check_semicolon_result(&mut self, semicolon: &ParseResult<SemicolonSymbol>)
        requires
            semicolon matches Err(e) ==> {
                let toks = old(self).tokens();
                let idx = e.found_token_index as int;
                let prev = prev_non_trivia(toks, idx - 1);
                &&& 1 <= idx <= toks.len()
                &&& 0 <= prev
            },
        ensures
            final(self).tokens() == old(self).tokens(),
            final(self).file_path() == old(self).file_path(),
            final(self).file_lines() == old(self).file_lines(),
            semicolon is Ok ==> final(self).diagnostics() == old(self).diagnostics(),
            semicolon matches Err(e) ==> {
                let toks = old(self).tokens();
                let idx = e.found_token_index as int;
                let prev_span = toks[prev_non_trivia(toks, idx - 1)].span;
                let found = found_token(toks, idx);
                &&& final(self).diagnostics().len() == old(self).diagnostics().len() + 1
                &&& final(self).diagnostics().take(old(self).diagnostics().len() as int) == old(
                    self,
                ).diagnostics()
                &&& is_report(
                    final(self).diagnostics().last(),
                    "يُتوقع فاصلة منقوطة `؛`، ولكن تم العثور على `"@ + found.1 + "`"@,
                    Span { start: prev_span.end, end: prev_span.end },
                    "قُم هنا بإضافة فاصلة منقوطة `؛`"@,
                    seq![(found.0, seq![found.2])],
                )
            },
    {
        if let Err(err) = semicolon {
            let mut i = err.found_token_index - 1;
            loop
                invariant
                    *self == *old(self),
                    0 <= i < self.tokens@.len(),
                    prev_non_trivia(self.tokens@, err.found_token_index - 1) == prev_non_trivia(
                        self.tokens@,
                        i as int,
                    ),
                    prev_non_trivia(self.tokens@, err.found_token_index - 1) >= 0,
                ensures
                    0 <= i < self.tokens@.len(),
                    i == prev_non_trivia(self.tokens@, err.found_token_index - 1),
                decreases i,
            {
                let trivia = match &self.tokens[i].kind {
                    TokenKind::Eol | TokenKind::DelimitedComment | TokenKind::LineComment
                    | TokenKind::Space => true,
                    _ => false,
                };
                if !trivia {
                    break ;
                }
                assert(i > 0) by {
                    if i == 0 {
                        assert(prev_non_trivia(self.tokens@, -1) == -1);
                    }
                }
                i -= 1;
            }
            let (found_token_span, found_token_val, secondary_label) = if err.found_token_index
                < self.tokens.len() {
                let token = &self.tokens[err.found_token_index];
                (token.span, token.val, String::from_str("رمز غير متوقع"))
            } else {
                let last_span = self.tokens[self.tokens.len() - 1].span;
                (
                    Span::len_after(&last_span, 1),
                    "نهاية الملف",
                    String::from_str("تم الوصول إلى نهاية الملف"),
                )
            };
            let mut msg = String::from_str("يُتوقع فاصلة منقوطة `؛`، ولكن تم العثور على `");
            msg.append(found_token_val);
            msg.append("`");
            let ghost label = secondary_label@;
            let labels = vec![secondary_label];
            let secondary = vec![(found_token_span, labels)];
            proof {
                assert(labels_view(labels@) =~= seq![label]);
                assert(secondaries_view(secondary@) =~= seq![(found_token_span, seq![label])]);
            }
            self.report(
                msg,
                Span::len_after(&self.tokens[i].span, 1),
                String::from_str("قُم هنا بإضافة فاصلة منقوطة `؛`"),
                secondary,
            );
        }
    }
}

} // verus!
