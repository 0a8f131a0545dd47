use nazmc::lexer::lexer_iter::LexerIter;
use nazmc::parser::parse_methods::{parse_option, Check, NazmcParse, ParseResult, ZeroOrMany};
use nazmc::parser::terminal::{
    CloseParenthesisSymbol, ColonSymbol, CommaSymbol, FnKeyword, Id, MinusSymbol,
    OpenParenthesisSymbol, PlusSymbol,
};
use nazmc::parser::tokens_iter::TokensIter;

pub enum TermBinOp {
    Plus(PlusSymbol),
    Minus(Box<MinusSymbol>),
}

impl NazmcParse for TermBinOp {
    fn parsed(before: TokensIter, r: ParseResult<Self>, after: usize) -> bool {
        let mut it = before;
        let got = Self::parse(&mut it);
        got.is_ok() == r.is_ok() && it.peek_idx == after
    }

    fn parse(iter: &mut TokensIter) -> ParseResult<Self> {
        let peek_idx = iter.peek_idx;
        if let Ok(tree) = PlusSymbol::parse(iter) {
            return Ok(TermBinOp::Plus(tree));
        }
        iter.peek_idx = peek_idx; // Backtrack
        match MinusSymbol::parse(iter) {
            Ok(tree) => Ok(TermBinOp::Minus(Box::new(tree))),
            Err(err) => Err(err),
        }
    }
}

#[test]
fn test_enum() {
    let (tokens, ..) = LexerIter::new("+-  /** */ - +").collect_all();
    let mut tokens_iter = TokensIter::new(&tokens);
    tokens_iter.next(); // Init recent

    let parse_result = TermBinOp::parse(&mut tokens_iter);
    let op = parse_result.unwrap();
    assert!(matches!(op, TermBinOp::Plus(_)));

    let parse_result = TermBinOp::parse(&mut tokens_iter);
    let op = parse_result.unwrap();
    assert!(matches!(op, TermBinOp::Minus(_)));

    let parse_result = TermBinOp::parse(&mut tokens_iter);
    let op = parse_result.unwrap();
    assert!(matches!(op, TermBinOp::Minus(_)));

    let parse_result = TermBinOp::parse(&mut tokens_iter);
    let op = parse_result.unwrap();
    assert!(matches!(op, TermBinOp::Plus(_)));
}

#[derive(Debug)]
pub struct SimpleFn {
    pub _fn: FnKeyword,
    pub _id: ParseResult<Id>,
    pub _params_decl: ParseResult<FnParamsDecl>,
}

impl NazmcParse for SimpleFn {
    fn parsed(before: TokensIter, r: ParseResult<Self>, after: usize) -> bool {
        let mut it = before;
        let got = Self::parse(&mut it);
        got.is_ok() == r.is_ok() && it.peek_idx == after
    }

    fn parse(iter: &mut TokensIter) -> ParseResult<Self> {
        let peek_idx = iter.peek_idx;
        let _fn = match FnKeyword::parse(iter) {
            Ok(tree) => tree,
            Err(err) => {
                iter.peek_idx = peek_idx; // Backtrack
                return Err(err);
            }
        };
        let _id = Id::parse(iter);
        let _params_decl = FnParamsDecl::parse(iter);
        Ok(SimpleFn { _fn, _id, _params_decl })
    }
}

impl Check for SimpleFn {
    fn broken(&self) -> bool {
        self.is_broken()
    }

    fn is_broken(&self) -> bool {
        self._fn.is_broken() || self._id.is_broken() || self._params_decl.is_broken()
    }
}

#[derive(Debug)]
pub struct FnParamsDecl {
    pub _open_paren: OpenParenthesisSymbol,
    pub _params: Option<FnParams>,
    pub _close_paren: ParseResult<CloseParenthesisSymbol>,
}

impl NazmcParse for FnParamsDecl {
    fn parsed(before: TokensIter, r: ParseResult<Self>, after: usize) -> bool {
        let mut it = before;
        let got = Self::parse(&mut it);
        got.is_ok() == r.is_ok() && it.peek_idx == after
    }

    fn parse(iter: &mut TokensIter) -> ParseResult<Self> {
        let parse_result = FnParamsDeclImpl::parse(iter);

        let decl_impl_node = match parse_result {
            Ok(decl_impl) => decl_impl,
            Err(err) => return Err(err),
        };

        let open_paren = decl_impl_node._open_paren;

        // The unexpected case is unreachable as it will be include in WithParams case, so we can safely unwrap it
        let close = decl_impl_node._fn_param_close.unwrap();

        let fn_decl_with_params = match close {
            CloseFnParamsDecl::NoParams(close_paren) => {
                return Ok(FnParamsDecl {
                    _open_paren: open_paren,
                    _params: None,
                    _close_paren: Ok(close_paren),
                })
            }
            CloseFnParamsDecl::WithParams(fn_decl_with_params) => fn_decl_with_params,
        };

        let first_param = fn_decl_with_params._first_param;

        let rest_params = fn_decl_with_params._params.items;

        let (trailing_comma, close_paren) = match fn_decl_with_params._params.terminator {
            Ok(node) => (node._comma, Ok(node._close_paren)),
            Err(err) => (None, Err(err)),
        };

        let params = FnParams {
            _first_param: first_param,
            _rest_params: rest_params,
            _trailing_comma: trailing_comma,
        };

        Ok(FnParamsDecl {
            _open_paren: open_paren,
            _params: Some(params),
            _close_paren: close_paren,
        })
    }
}

impl Check for FnParamsDecl {
    fn broken(&self) -> bool {
        self.is_broken()
    }

    fn is_broken(&self) -> bool {
        self._open_paren.is_broken() || self._params.is_broken() || self._close_paren.is_broken()
    }
}

#[derive(Debug)]
pub struct FnParams {
    pub _first_param: ParseResult<FnParam>,
    pub _rest_params: Vec<ParseResult<CommaWithFnParam>>,
    pub _trailing_comma: Option<CommaSymbol>,
}

impl Check for FnParams {
    fn broken(&self) -> bool {
        self.is_broken()
    }

    fn is_broken(&self) -> bool {
        self._first_param.is_broken()
            || self._rest_params.is_broken()
            || self._trailing_comma.is_broken()
    }
}

#[derive(Debug)]
pub struct FnParamsDeclImpl {
    pub _open_paren: OpenParenthesisSymbol,
    pub _fn_param_close: ParseResult<CloseFnParamsDecl>,
}

impl NazmcParse for FnParamsDeclImpl {
    fn parsed(before: TokensIter, r: ParseResult<Self>, after: usize) -> bool {
        let mut it = before;
        let got = Self::parse(&mut it);
        got.is_ok() == r.is_ok() && it.peek_idx == after
    }

    fn parse(iter: &mut TokensIter) -> ParseResult<Self> {
        let peek_idx = iter.peek_idx;
        let _open_paren = match OpenParenthesisSymbol::parse(iter) {
            Ok(tree) => tree,
            Err(err) => {
                iter.peek_idx = peek_idx; // Backtrack
                return Err(err);
            }
        };
        let _fn_param_close = CloseFnParamsDecl::parse(iter);
        Ok(FnParamsDeclImpl { _open_paren, _fn_param_close })
    }
}

#[derive(Debug)]
pub enum CloseFnParamsDecl {
    NoParams(CloseParenthesisSymbol),
    WithParams(Box<FnDeclWithParams>),
}

impl NazmcParse for CloseFnParamsDecl {
    fn parsed(before: TokensIter, r: ParseResult<Self>, after: usize) -> bool {
        let mut it = before;
        let got = Self::parse(&mut it);
        got.is_ok() == r.is_ok() && it.peek_idx == after
    }

    fn parse(iter: &mut TokensIter) -> ParseResult<Self> {
        let peek_idx = iter.peek_idx;
        if let Ok(tree) = CloseParenthesisSymbol::parse(iter) {
            return Ok(CloseFnParamsDecl::NoParams(tree));
        }
        iter.peek_idx = peek_idx; // Backtrack
        match FnDeclWithParams::parse(iter) {
            Ok(tree) => Ok(CloseFnParamsDecl::WithParams(Box::new(tree))),
            Err(err) => Err(err),
        }
    }
}

#[derive(Debug)]
pub struct FnDeclWithParams {
    pub _first_param: ParseResult<FnParam>,
    pub _params: ZeroOrMany<CommaWithFnParam, CommaWithCloseParenthesis>,
}

impl NazmcParse for FnDeclWithParams {
    fn parsed(before: TokensIter, r: ParseResult<Self>, after: usize) -> bool {
        let mut it = before;
        let got = Self::parse(&mut it);
        got.is_ok() == r.is_ok() && it.peek_idx == after
    }

    fn parse(iter: &mut TokensIter) -> ParseResult<Self> {
        let _first_param = FnParam::parse(iter);
        let _params = ZeroOrMany::parse(iter);
        Ok(FnDeclWithParams { _first_param, _params })
    }
}

#[derive(Debug)]
pub struct CommaWithFnParam {
    _comma: CommaSymbol,
    _fn_param: FnParam,
}

impl NazmcParse for CommaWithFnParam {
    fn parsed(before: TokensIter, r: ParseResult<Self>, after: usize) -> bool {
        let mut it = before;
        let got = Self::parse(&mut it);
        got.is_ok() == r.is_ok() && it.peek_idx == after
    }

    fn parse(iter: &mut TokensIter) -> ParseResult<Self> {
        let peek_idx = iter.peek_idx;
        let _comma = match CommaSymbol::parse(iter) {
            Ok(tree) => tree,
            Err(err) => {
                iter.peek_idx = peek_idx; // Backtrack
                return Err(err);
            }
        };
        let peek_idx = iter.peek_idx;
        let _fn_param = match FnParam::parse(iter) {
            Ok(tree) => tree,
            Err(err) => {
                iter.peek_idx = peek_idx; // Backtrack
                return Err(err);
            }
        };
        Ok(CommaWithFnParam { _comma, _fn_param })
    }
}

impl Check for CommaWithFnParam {
    fn broken(&self) -> bool {
        self.is_broken()
    }

    fn is_broken(&self) -> bool {
        self._comma.is_broken() || self._fn_param.is_broken()
    }
}

#[derive(Debug)]
pub struct CommaWithCloseParenthesis {
    _comma: Option<CommaSymbol>,
    _close_paren: CloseParenthesisSymbol,
}

impl NazmcParse for CommaWithCloseParenthesis {
    fn parsed(before: TokensIter, r: ParseResult<Self>, after: usize) -> bool {
        let mut it = before;
        let got = Self::parse(&mut it);
        got.is_ok() == r.is_ok() && it.peek_idx == after
    }

    fn parse(iter: &mut TokensIter) -> ParseResult<Self> {
        let _comma = parse_option::<CommaSymbol>(iter);
        let peek_idx = iter.peek_idx;
        let _close_paren = match CloseParenthesisSymbol::parse(iter) {
            Ok(tree) => tree,
            Err(err) => {
                iter.peek_idx = peek_idx; // Backtrack
                return Err(err);
            }
        };
        Ok(CommaWithCloseParenthesis { _comma, _close_paren })
    }
}

#[derive(Debug)]
pub struct FnParam {
    pub _name: Id,
    pub _colon: ParseResult<ColonSymbol>,
    pub _type: ParseResult<Id>,
}

impl NazmcParse for FnParam {
    fn parsed(before: TokensIter, r: ParseResult<Self>, after: usize) -> bool {
        let mut it = before;
        let got = Self::parse(&mut it);
        got.is_ok() == r.is_ok() && it.peek_idx == after
    }

    fn parse(iter: &mut TokensIter) -> ParseResult<Self> {
        let peek_idx = iter.peek_idx;
        let _name = match Id::parse(iter) {
            Ok(tree) => tree,
            Err(err) => {
                iter.peek_idx = peek_idx; // Backtrack
                return Err(err);
            }
        };
        let _colon = ColonSymbol::parse(iter);
        let _type = Id::parse(iter);
        Ok(FnParam { _name, _colon, _type })
    }
}

impl Check for FnParam {
    fn broken(&self) -> bool {
        self.is_broken()
    }

    fn is_broken(&self) -> bool {
        self._name.is_broken() || self._colon.is_broken() || self._type.is_broken()
    }
}

#[test]
fn test_wrong_params() {
    let (tokens, ..) =
        LexerIter::new("دالة البداية(123 دالة، ت: ح 444، س: ص، ع: ك،) {}").collect_all();
    let mut tokens_iter = TokensIter::new(&tokens);
    tokens_iter.next(); // Init recent

    let parse_result = SimpleFn::parse(&mut tokens_iter);
    let fn_node = parse_result.unwrap();

    assert!(fn_node.is_broken());

    let params_decl = fn_node._params_decl.unwrap();
    assert!(params_decl.is_broken());
    assert!(params_decl._close_paren.is_ok());

    let params = params_decl._params.unwrap();
    assert!(params.is_broken());

    assert!(params._first_param.is_err());
    println!("{:#?}\n----------", params._first_param.unwrap_err());
    assert!(params._trailing_comma.is_some());

    for param in params._rest_params {
        println!("{:#?}", param)
    }
}

#[test]
fn test_zero_params() {
    let (tokens, ..) = LexerIter::new("دالة البداية() {}").collect_all();
    let mut tokens_iter = TokensIter::new(&tokens);
    tokens_iter.next(); // Init recent

    let fn_node = SimpleFn::parse(&mut tokens_iter).unwrap();
    assert!(!fn_node.is_broken());

    let params_decl = fn_node._params_decl.unwrap();
    assert!(!params_decl.is_broken());
    assert!(!params_decl._open_paren.is_broken());
    assert!(!params_decl._close_paren.unwrap().is_broken());

    assert!(params_decl._params.is_none());
}

#[test]
fn test_one_param_no_trailing_comma() {
    let (tokens, ..) = LexerIter::new("دالة البداية(س: ص8) {}").collect_all();
    let mut tokens_iter = TokensIter::new(&tokens);
    tokens_iter.next(); // Init recent

    let fn_node = SimpleFn::parse(&mut tokens_iter).unwrap();
    assert!(!fn_node.is_broken());

    let params_decl = fn_node._params_decl.unwrap();
    assert!(!params_decl.is_broken());
    assert!(!params_decl._open_paren.is_broken());
    assert!(!params_decl._close_paren.unwrap().is_broken());

    let params = params_decl._params.unwrap();
    assert!(!params.is_broken());

    assert!(!params._first_param.unwrap().is_broken());
    assert!(params._rest_params.is_empty());
    assert!(params._trailing_comma.is_none());
}

#[test]
fn test_one_param_with_trailing_comma() {
    let (tokens, ..) = LexerIter::new("دالة البداية(س: ص8،) {}").collect_all();
    let mut tokens_iter = TokensIter::new(&tokens);
    tokens_iter.next(); // Init recent

    let fn_node = SimpleFn::parse(&mut tokens_iter).unwrap();
    assert!(!fn_node.is_broken());

    let params_decl = fn_node._params_decl.unwrap();
    assert!(!params_decl.is_broken());
    assert!(!params_decl._open_paren.is_broken());
    assert!(!params_decl._close_paren.unwrap().is_broken());

    let params = params_decl._params.unwrap();
    assert!(!params.is_broken());

    assert!(!params._first_param.unwrap().is_broken());
    assert!(params._rest_params.is_empty());
    assert!(params._trailing_comma.is_some());
}

#[test]
fn test_two_params_no_trailing_comma() {
    let (tokens, ..) = LexerIter::new("دالة البداية(س: ص8، ك: م) {}").collect_all();
    let mut tokens_iter = TokensIter::new(&tokens);
    tokens_iter.next(); // Init recent

    let fn_node = SimpleFn::parse(&mut tokens_iter).unwrap();
    assert!(!fn_node.is_broken());

    let params_decl = fn_node._params_decl.unwrap();
    assert!(!params_decl.is_broken());
    assert!(!params_decl._open_paren.is_broken());
    assert!(!params_decl._close_paren.unwrap().is_broken());

    let params = params_decl._params.unwrap();
    assert!(!params.is_broken());

    assert!(!params._first_param.unwrap().is_broken());
    assert!(params._rest_params.len() == 1);
    assert!(!params._rest_params[0].is_broken());
    assert!(params._trailing_comma.is_none());
}

#[test]
fn test_two_params_with_trailing_comma() {
    let (tokens, ..) = LexerIter::new("دالة البداية(س: ص8، ك: م،) {}").collect_all();
    let mut tokens_iter = TokensIter::new(&tokens);
    tokens_iter.next(); // Init recent

    let fn_node = SimpleFn::parse(&mut tokens_iter).unwrap();
    assert!(!fn_node.is_broken());

    let params_decl = fn_node._params_decl.unwrap();
    assert!(!params_decl.is_broken());
    assert!(!params_decl._open_paren.is_broken());
    assert!(!params_decl._close_paren.unwrap().is_broken());

    let params = params_decl._params.unwrap();
    assert!(!params.is_broken());

    assert!(!params._first_param.unwrap().is_broken());
    assert!(params._rest_params.len() == 1);
    assert!(!params._rest_params[0].is_broken());
    assert!(params._trailing_comma.is_some());
}
