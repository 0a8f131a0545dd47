//! Sequences of reports: what one call of the reporter adds, and adding one sequence after
//! another.
use super::errors_reporter::{found_token, is_report, next_non_trivia, prev_non_trivia};
use super::parse_methods::ParseErr;
use crate::diagnostics::Diagnostic;
use crate::lexer::token::{SymbolKind, Token, TokenKind};
use crate::span::Span;
use vstd::prelude::*;

verus! {

/// One report of the checks.
pub enum ParseReport {
    /// `expected` was expected where the parse failed (`report_expected`).
    Expected(Seq<char>, ParseErr),
    /// An item or a comma of a comma-separated list was expected
    /// (`report_expected_comma_or_item`).
    CommaOrItem(Seq<char>, ParseErr),
    /// An opening delimiter at this span was not closed (`report_unclosed_delimiter`).
    Unclosed(Span),
    /// An error with this message on this span, with this label (`report`).
    Message(Seq<char>, Span, Seq<char>),
    /// A missing semicolon (`check_semicolon_result`).
    Semicolon(ParseErr),
    /// A part that the checks cannot report (a `when` or `do`-`while` expression, or a lambda
    /// arrow used as a block whose `->` is missing): the `requires` of the checks leave it out.
    Unsupported,
}

/// The diagnostic `d` is the report `r` over the tokens `toks`.
pub open spec fn is_report_of(toks: Seq<Token>, d: Diagnostic, r: ParseReport) -> bool {
    match r {
        ParseReport::Expected(expected, err) => {
            let found = found_token(toks, err.found_token_index as int);
            is_report(
                d,
                "يُتوقع "@ + expected + "، ولكن تم العثور على `"@ + found.1 + "`"@,
                found.0,
                found.2,
                Seq::empty(),
            )
        },
        ParseReport::CommaOrItem(expected, err) => {
            let idx = err.found_token_index as int;
            let at_comma = idx < toks.len() && toks[idx].kind == TokenKind::Symbol(
                SymbolKind::Comma,
            );
            let found_idx = if at_comma {
                next_non_trivia(toks, idx + 1)
            } else {
                idx
            };
            let exp = if at_comma {
                expected
            } else {
                "يُتوقع فاصلة `،`"@
            };
            let found = found_token(toks, found_idx);
            is_report(
                d,
                "يُتوقع "@ + exp + "، ولكن تم العثور على `"@ + found.1 + "`"@,
                found.0,
                found.2,
                Seq::empty(),
            )
        },
        ParseReport::Unclosed(span) => is_report(
            d,
            "لم يتم إغلاق القوس"@,
            span,
            "يجب إغلاق هذا القوس"@,
            Seq::empty(),
        ),
        ParseReport::Message(msg, span, label) => is_report(d, msg, span, label, Seq::empty()),
        ParseReport::Semicolon(err) => {
            let idx = err.found_token_index as int;
            let prev_span = toks[prev_non_trivia(toks, idx - 1)].span;
            let found = found_token(toks, idx);
            is_report(
                d,
                "يُتوقع فاصلة منقوطة `؛`، ولكن تم العثور على `"@ + found.1 + "`"@,
                Span { start: prev_span.end, end: prev_span.end },
                "قُم هنا بإضافة فاصلة منقوطة `؛`"@,
                seq![(found.0, seq![found.2])],
            )
        },
        ParseReport::Unsupported => false,
    }
}

/// The report `r` can be made over the tokens `toks`: the reporter finds the tokens it
/// looks at.
pub open spec fn reportable(toks: Seq<Token>, r: ParseReport) -> bool {
    match r {
        ParseReport::Expected(_, err) => err.found_token_index >= toks.len() ==> toks.len() > 0,
        ParseReport::CommaOrItem(_, _) => toks.len() > 0,
        ParseReport::Semicolon(err) => {
            let idx = err.found_token_index as int;
            &&& 1 <= idx <= toks.len()
            &&& 0 <= prev_non_trivia(toks, idx - 1)
        },
        ParseReport::Unsupported => false,
        _ => true,
    }
}

/// Every report of `rs` can be made over `toks`.
pub open spec fn all_reportable(toks: Seq<Token>, rs: Seq<ParseReport>) -> bool {
    forall|i: int| 0 <= i < rs.len() ==> reportable(toks, #[trigger] rs[i])
}

/// Going from the diagnostics `old` to `new`, the reports `rs` were added, in order.
pub open spec fn reports_appended(
    old: Seq<Diagnostic>,
    new: Seq<Diagnostic>,
    toks: Seq<Token>,
    rs: Seq<ParseReport>,
) -> bool {
    &&& new.len() == old.len() + rs.len()
    &&& new.take(old.len() as int) == old
    &&& forall|i: int| 0 <= i < rs.len() ==> is_report_of(toks, new[old.len() + i], #[trigger] rs[i])
}

/// Adding reports, then more reports, adds them all.
pub broadcast proof fn lemma_reports_appended_trans(
    a: Seq<Diagnostic>,
    b: Seq<Diagnostic>,
    c: Seq<Diagnostic>,
    toks: Seq<Token>,
    r1: Seq<ParseReport>,
    r2: Seq<ParseReport>,
)
    requires
        #[trigger] reports_appended(a, b, toks, r1),
        #[trigger] reports_appended(b, c, toks, r2),
    ensures
        reports_appended(a, c, toks, r1 + r2),
{
    assert(c.take(a.len() as int) =~= a) by {
        assert forall|i: int| 0 <= i < a.len() implies c.take(a.len() as int)[i] == a[i] by {
            assert(c.take(b.len() as int)[i] == b[i]);
            assert(b.take(a.len() as int)[i] == a[i]);
        }
    }
    assert forall|i: int| 0 <= i < (r1 + r2).len() implies is_report_of(
        toks,
        c[a.len() + i],
        #[trigger] (r1 + r2)[i],
    ) by {
        if i < r1.len() {
            assert(r1[i] == (r1 + r2)[i]);
            assert(c.take(b.len() as int)[a.len() + i] == b[a.len() + i]);
        } else {
            assert(r2[i - r1.len()] == (r1 + r2)[i]);
        }
    }
}

/// Nothing was added.
pub proof fn lemma_reports_appended_none(a: Seq<Diagnostic>, toks: Seq<Token>)
    ensures
        reports_appended(a, a, toks, Seq::empty()),
{
    assert(a.take(a.len() as int) =~= a);
}

/// The reports of two parts can each be made when all of them can.
pub proof fn lemma_reportable_split(toks: Seq<Token>, a: Seq<ParseReport>, b: Seq<ParseReport>)
    requires
        all_reportable(toks, a + b),
    ensures
        all_reportable(toks, a),
        all_reportable(toks, b),
{
    assert forall|i: int| 0 <= i < a.len() implies reportable(toks, #[trigger] a[i]) by {
        assert((a + b)[i] == a[i]);
    }
    assert forall|i: int| 0 <= i < b.len() implies reportable(toks, #[trigger] b[i]) by {
        assert((a + b)[a.len() + i] == b[i]);
    }
}

} // verus!
