//! Recursive descent parser for the C subset.
//!
//! The parser reads the token stream of the lexer, which ends with the one
//! and only `Eof` token. Every parsing function keeps the parser on that
//! stream, never moves backwards past where it started, and reports every
//! error, and records every node, at the location of some token.
use vstd::prelude::*;
use super::ast::{base_view, AstNode, BaseType, BinOp, CaseNode, Field, Param, Program, SourceLocation, Type, UnOp};
use super::lex_spec::{lemma_lex_from_shape, lex, SpecLexError};
use super::lexer::{tokens_view, LexError, Lexer};
use super::token::{SpecToken, Token};
use super::grammar::{
    arguments_rest, arguments_spec, assignment_spec, binary_rest, binary_spec, cast_spec, dims_rest,
    expression_spec, lemma_nodes_view_push, node_view, nodes_view, operand_spec, postfix_rest, postfix_spec,
    prefix_spec, primary_spec, stars_end, ternary_spec, try_cast_spec, type_spec, unary_spec, ErrV,
    NodeView, Parsed, statement_spec, return_spec, if_spec, while_spec, do_while_spec, for_spec,
    switch_spec, var_decl_spec, stmt_or_block_spec, block_rest, case_rest, cases_rest, struct_def_spec,
    fields_rest, function_def_spec, params_spec, params_rest, top_level_spec, program_rest, program_spec,
    params_view, fields_view, cases_view, lemma_cases_view_push, var_decl_tail, switch_tail, struct_tail,
};

verus! {

/// Parser error type
#[derive(Debug)]
pub struct ParseError {
    pub message: String,
    pub location: SourceLocation,
}

impl ParseError {
    /// The error as one line of text.
    pub fn to_text(&self) -> (r: String)
        ensures
            r@ == "Parse error at line "@ + crate::text::int_text(self.location.line as int)
                + ", column "@ + crate::text::int_text(self.location.column as int) + ": "@
                + self.message@,
    {
        let mut s = String::from_str("Parse error at line ");
        crate::text::push_decimal(&mut s, self.location.line as u64);
        s.append(", column ");
        crate::text::push_decimal(&mut s, self.location.column as u64);
        s.append(": ");
        s.append(self.message.as_str());
        s
    }

    /// The parse error that reports a lexing error.
    pub fn from_lex_error(err: LexError) -> (r: ParseError)
        ensures
            r.message@ == err.message@,
            r.location == err.location,
    {
        ParseError { message: err.message, location: err.location }
    }
}

/// Whether some token of the stream starts at `loc`.
pub open spec fn has_loc(toks: Seq<SpecToken>, loc: SourceLocation) -> bool {
    exists|i: int| 0 <= i < toks.len() && #[trigger] toks[i].loc() == loc
}

/// A parsing result whose error, if any, is reported at a token.
pub open spec fn error_at_token<T>(toks: Seq<SpecToken>, r: Result<T, ParseError>) -> bool {
    r matches Err(e) ==> has_loc(toks, e.location)
}

/// A node-parsing result whose node, or error, lies at a token.
pub open spec fn node_at_token(toks: Seq<SpecToken>, r: Result<AstNode, ParseError>) -> bool {
    match r {
        Ok(n) => has_loc(toks, n.loc()),
        Err(e) => has_loc(toks, e.location),
    }
}

/// All nodes of a list lie at tokens.
pub open spec fn nodes_at_tokens(toks: Seq<SpecToken>, ns: Seq<AstNode>) -> bool {
    forall|i: int| 0 <= i < ns.len() ==> has_loc(toks, #[trigger] ns[i].loc())
}

/// Whether token `j` of the stream is an identifier spelled `name`.
pub open spec fn ident_named(toks: Seq<SpecToken>, j: int, name: Seq<char>) -> bool {
    &&& 0 <= j < toks.len()
    &&& toks[j] matches Token::Ident(s, _) && s == name
}

/// Whether some token from `a` up to (not including) `b` is an identifier
/// spelled `name`.
pub open spec fn ident_between(toks: Seq<SpecToken>, a: int, b: int, name: Seq<char>) -> bool {
    exists|j: int| a <= j < b && #[trigger] ident_named(toks, j, name)
}

/// A token that ends the statements of a switch case: the next `case`,
/// `default`, the closing brace, or the end of the stream.
pub open spec fn ends_case(t: SpecToken) -> bool {
    t is Case || t is Default || t is RBrace || t is Eof
}

/// A token that starts a type.
pub open spec fn is_type_start(t: SpecToken) -> bool {
    t is Int || t is Char || t is Void || t is Struct || t is Const
}

/// The operator that a token denotes at a level of binary precedence
/// (1: multiplicative, 2: additive, 3: shift, 4: relational, 5: equality,
/// 6: `&`, 7: `^`, 8: `|`, 9: `&&`, 10: `||`).
pub open spec fn binary_op_at(level: u8, t: SpecToken) -> Option<BinOp> {
    if level == 1 {
        if t is Star {
            Some(BinOp::Mul)
        } else if t is Slash {
            Some(BinOp::Div)
        } else if t is Percent {
            Some(BinOp::Mod)
        } else {
            None
        }
    } else if level == 2 {
        if t is Plus {
            Some(BinOp::Add)
        } else if t is Minus {
            Some(BinOp::Sub)
        } else {
            None
        }
    } else if level == 3 {
        if t is LtLt {
            Some(BinOp::BitShl)
        } else if t is GtGt {
            Some(BinOp::BitShr)
        } else {
            None
        }
    } else if level == 4 {
        if t is Lt {
            Some(BinOp::Lt)
        } else if t is Le {
            Some(BinOp::Le)
        } else if t is Gt {
            Some(BinOp::Gt)
        } else if t is Ge {
            Some(BinOp::Ge)
        } else {
            None
        }
    } else if level == 5 {
        if t is EqEq {
            Some(BinOp::Eq)
        } else if t is NotEq {
            Some(BinOp::Ne)
        } else {
            None
        }
    } else if level == 6 {
        if t is Amp {
            Some(BinOp::BitAnd)
        } else {
            None
        }
    } else if level == 7 {
        if t is Caret {
            Some(BinOp::BitXor)
        } else {
            None
        }
    } else if level == 8 {
        if t is Pipe {
            Some(BinOp::BitOr)
        } else {
            None
        }
    } else if level == 9 {
        if t is AndAnd {
            Some(BinOp::And)
        } else {
            None
        }
    } else if level == 10 {
        if t is OrOr {
            Some(BinOp::Or)
        } else {
            None
        }
    } else {
        None
    }
}

/// The compound assignment operator a token denotes.
pub open spec fn compound_op(t: SpecToken) -> Option<BinOp> {
    if t is PlusEq {
        Some(BinOp::AddAssign)
    } else if t is MinusEq {
        Some(BinOp::SubAssign)
    } else if t is StarEq {
        Some(BinOp::MulAssign)
    } else if t is SlashEq {
        Some(BinOp::DivAssign)
    } else if t is PercentEq {
        Some(BinOp::ModAssign)
    } else {
        None
    }
}

/// An exec result agrees with a spec parse: the same node and end
/// position, or the same error.
pub open spec fn node_parsed(r: Result<AstNode, ParseError>, q: nat, s: Parsed<NodeView>) -> bool {
    match s {
        Ok((v, p)) => r matches Ok(n) && node_view(n) == v && q == p,
        Err(e) => r matches Err(x) && x.message@ == e.0 && x.location == e.1,
    }
}

/// A list of nodes agrees with a spec parse.
pub open spec fn nodes_parsed(r: Result<Vec<AstNode>, ParseError>, q: nat, s: Parsed<Seq<NodeView>>) -> bool {
    match s {
        Ok((v, p)) => r matches Ok(n) && nodes_view(n@) == v && q == p,
        Err(e) => r matches Err(x) && x.message@ == e.0 && x.location == e.1,
    }
}

/// A type agrees with a spec parse.
pub open spec fn type_parsed(r: Result<Type, ParseError>, q: nat, s: Parsed<super::ast::TypeView>) -> bool {
    match s {
        Ok((v, p)) => r matches Ok(t) && t@ == v && q == p,
        Err(e) => r matches Err(x) && x.message@ == e.0 && x.location == e.1,
    }
}

/// A parameter list agrees with a spec parse.
pub open spec fn params_parsed(
    r: Result<Vec<Param>, ParseError>,
    q: nat,
    s: Parsed<Seq<(Seq<char>, super::ast::TypeView)>>,
) -> bool {
    match s {
        Ok((v, p)) => r matches Ok(n) && params_view(n@) == v && q == p,
        Err(e) => r matches Err(x) && x.message@ == e.0 && x.location == e.1,
    }
}

/// An error agrees with a spec one.
pub open spec fn same_error(x: ParseError, e: ErrV) -> bool {
    x.message@ == e.0 && x.location == e.1
}

fn parse_error(message: String, location: SourceLocation) -> (e: ParseError)
    ensures
        e.message@ == message@,
        e.location == location,
{
    ParseError { message, location }
}

/// Recursive descent parser for C subset
pub struct Parser {
    tokens: Vec<Token>,
    position: usize,
}

impl Parser {
    /// The token stream.
    pub closed spec fn toks(&self) -> Seq<SpecToken> {
        tokens_view(self.tokens@)
    }

    /// The index of the current token.
    pub closed spec fn pos(&self) -> nat {
        self.position as nat
    }

    /// The current token.
    pub open spec fn cur(&self) -> SpecToken {
        self.toks()[self.pos() as int]
    }

    /// The parser's invariant: the stream ends with the one and only `Eof`,
    /// and the current token lies on it.
    pub closed spec fn wf(&self) -> bool {
        &&& self.tokens@.len() >= 1
        &&& self.toks().last() is Eof
        &&& forall|i: int| 0 <= i < self.toks().len() - 1 ==> !(#[trigger] self.toks()[i] is Eof)
        &&& self.position < self.tokens@.len()
    }

    /// `self` is a state reached from `before` by parsing: same stream, not
    /// behind it.
    pub open spec fn advanced_from(&self, before: Parser) -> bool {
        &&& self.wf()
        &&& self.toks() == before.toks()
        &&& self.pos() >= before.pos()
    }

    /// Whether the current token is the end of the stream.
    pub open spec fn at_end(&self) -> bool {
        self.cur() is Eof
    }

    proof fn lemma_view_len(&self)
        ensures
            self.toks().len() == self.tokens@.len(),
            forall|i: int| 0 <= i < self.tokens@.len() ==> #[trigger] self.toks()[i] == self.tokens@[i]@,
    {
    }

    pub fn new(source: &str) -> (r: Result<Self, ParseError>)
        ensures
            match lex(source@) {
                Ok(ts) => r matches Ok(p) && p.wf() && p.toks() == ts && p.pos() == 0,
                Err(e) => r matches Err(err) && (err.message@, err.location) == e,
            },
    {
        let mut lexer = Lexer::new(source);
        proof {
            lemma_lex_from_shape(source@, lexer.at());
        }
        match lexer.tokenize() {
            Ok(tokens) => Ok(Self { tokens, position: 0 }),
            Err(e) => Err(ParseError::from_lex_error(e)),
        }
    }

    /// Parse the entire program (top-level declarations)
    pub fn parse_program(&mut self) -> (r: Result<Program, ParseError>)
        requires
            old(self).wf(),
        ensures
            final(self).advanced_from(*old(self)),
            error_at_token(old(self).toks(), r),
            match program_spec(old(self).toks(), old(self).pos() as int) {
                Ok(ns) => r matches Ok(p) && nodes_view(p.nodes@) == ns,
                Err(e) => r matches Err(x) && same_error(x, e),
            },
            r matches Ok(p) ==> {
                &&& final(self).at_end()
                &&& nodes_at_tokens(old(self).toks(), p.nodes@)
                &&& forall|i: int|
                    0 <= i < p.nodes@.len() ==> (#[trigger] p.nodes@[i] is FunctionDef
                        || p.nodes@[i] is StructDef)
            },
    {
        let mut program = Program::new();
        assert(nodes_view(program.nodes@) =~= Seq::<NodeView>::empty());
        while !self.is_at_end()
            invariant
                self.advanced_from(*old(self)),
                nodes_at_tokens(old(self).toks(), program.nodes@),
                forall|i: int|
                    0 <= i < program.nodes@.len() ==> (#[trigger] program.nodes@[i] is FunctionDef
                        || program.nodes@[i] is StructDef),
                program_rest(old(self).toks(), old(self).pos() as int, Seq::empty()) == program_rest(
                    old(self).toks(),
                    self.pos() as int,
                    nodes_view(program.nodes@),
                ),
            decreases self.tokens@.len() - self.position,
        {
            proof {
                super::grammar::unfold_program_rest(old(self).toks(), self.pos() as int, nodes_view(program.nodes@));
            }
            // Parse top-level declaration (function or struct)
            let decl = match self.parse_top_level_declaration() {
                Ok(d) => d,
                Err(e) => {
                    return Err(e);
                },
            };
            proof {
                self.lemma_view_len();
            }
            proof {
                assert(program.nodes@.push(decl)[program.nodes@.len() as int] == decl);
            }
            proof {
                lemma_nodes_view_push(program.nodes@, decl);
            }
            program.nodes.push(decl);
        }
        proof {
            super::grammar::unfold_program_rest(old(self).toks(), self.pos() as int, nodes_view(program.nodes@));
        }
        Ok(program)
    }

    /// Parse a top-level declaration (function or struct definition)
    fn parse_top_level_declaration(&mut self) -> (r: Result<AstNode, ParseError>)
        requires
            old(self).wf(),
        ensures
            final(self).advanced_from(*old(self)),
            node_at_token(old(self).toks(), r),
            r matches Ok(n) ==> (n is FunctionDef || n is StructDef) && final(self).pos() > old(
                self,
            ).pos(),
            node_parsed(r, final(self).pos(), top_level_spec(old(self).toks(), old(self).pos() as int)),
        decreases old(self).tokens@.len() - old(self).position, 43int,
    {
        proof {
            super::grammar::unfold_top_level_spec(old(self).toks(), old(self).pos() as int);
        }
        // Check for struct definition vs function with struct return type:
        //   struct Name { ... };           <- struct definition
        //   struct Name func_name(...) ... <- function with struct return type
        if self.check(&Token::Struct(self.current_location())) {
            // Look ahead to determine which it is
            let saved_pos = self.position;
            self.advance();  // consume 'struct'
            if self.check(&Token::Ident(String::new(), self.current_location())) {
                self.advance();  // consume struct name
                // Check what follows the struct name
                if self.check(&Token::LBrace(self.current_location())) {
                    // It's a struct definition: restore and parse it
                    self.position = saved_pos;
                    self.match_token(&Token::Struct(self.current_location()));  // consume 'struct' again
                    return self.parse_struct_definition();
                } else {
                    // It's a function with struct return type
                    self.position = saved_pos;
                    return self.parse_function_definition();
                }
            }
            // Restore position if we couldn't determine
            self.position = saved_pos;
        }
        // Otherwise, parse function definition
        self.parse_function_definition()
    }

    /// Parse struct definition: struct Name { fields };
    fn parse_struct_definition(&mut self) -> (r: Result<AstNode, ParseError>)
        requires
            old(self).wf(),
            old(self).pos() > 0,
        ensures
            final(self).advanced_from(*old(self)),
            node_at_token(old(self).toks(), r),
            r matches Ok(n) ==> n is StructDef && final(self).pos() > old(self).pos(),
            node_parsed(r, final(self).pos(), struct_def_spec(old(self).toks(), old(self).pos() as int)),
        decreases old(self).tokens@.len() - old(self).position, 41int,
    {
        proof {
            super::grammar::unfold_struct_def_spec(old(self).toks(), old(self).pos() as int);
        }
        let loc = self.previous_location();
        let name = self.expect_identifier()?;
        self.expect_token(&Token::LBrace(self.current_location()), "Expected '{' after struct name")?;
        let mut fields: Vec<Field> = Vec::new();
        assert(fields_view(fields@) =~= Seq::<(Seq<char>, super::ast::TypeView)>::empty());
        while !self.check(&Token::RBrace(self.current_location()))
            invariant
                self.advanced_from(*old(self)),
                self.pos() > old(self).pos(),
                has_loc(old(self).toks(), loc),
                struct_def_spec(old(self).toks(), old(self).pos() as int) == struct_tail(
                    old(self).toks(),
                    name@,
                    loc,
                    fields_rest(old(self).toks(), self.pos() as int, fields_view(fields@)),
                ),
            decreases self.tokens@.len() - self.position,
        {
            proof {
                super::grammar::unfold_fields_rest(old(self).toks(), self.pos() as int, fields_view(fields@));
            }
            let ghost before = self.position;
            let field_type = self.parse_type()?;
            let field_name = self.expect_identifier()?;
            self.expect_token(
                &Token::Semicolon(self.current_location()),
                "Expected ';' after struct field",
            )?;
            let ghost old_fields = fields@;
            let field = Field { name: field_name, field_type };
            fields.push(field);
            assert(fields_view(fields@) =~= fields_view(old_fields).push((field.name@, field.field_type@)));
        }
        proof {
            super::grammar::unfold_fields_rest(old(self).toks(), self.pos() as int, fields_view(fields@));
        }
        self.expect_token(&Token::RBrace(self.current_location()), "Expected '}' after struct fields")?;
        self.expect_token(
            &Token::Semicolon(self.current_location()),
            "Expected ';' after struct definition",
        )?;
        Ok(AstNode::StructDef { name, fields, location: loc })
    }

    /// Parse function definition: type name(params) { body }
    #[verifier::rlimit(50)]
    fn parse_function_definition(&mut self) -> (r: Result<AstNode, ParseError>)
        requires
            old(self).wf(),
        ensures
            final(self).advanced_from(*old(self)),
            node_at_token(old(self).toks(), r),
            r matches Ok(n) ==> n is FunctionDef && final(self).pos() > old(self).pos(),
            node_parsed(r, final(self).pos(), function_def_spec(old(self).toks(), old(self).pos() as int)),
        decreases old(self).tokens@.len() - old(self).position, 42int,
    {
        proof {
            super::grammar::unfold_function_def_spec(old(self).toks(), old(self).pos() as int);
        }
        let return_type = self.parse_type()?;
        let name = self.expect_identifier()?;
        let loc = self.previous_location();
        self.expect_token(&Token::LParen(self.current_location()), "Expected '(' after function name")?;
        let params = self.parse_parameter_list()?;
        self.expect_token(&Token::RParen(self.current_location()), "Expected ')' after parameters")?;
        self.expect_token(
            &Token::LBrace(self.current_location()),
            "Expected '{' before function body",
        )?;
        let body = self.parse_block_statements()?;
        self.expect_token(&Token::RBrace(self.current_location()), "Expected '}' after function body")?;
        Ok(AstNode::FunctionDef { name, params, return_type, body, location: loc })
    }

    /// Parse parameter list: (type name, type name, ...)
    fn parse_parameter_list(&mut self) -> (r: Result<Vec<Param>, ParseError>)
        requires
            old(self).wf(),
        ensures
            final(self).advanced_from(*old(self)),
            error_at_token(old(self).toks(), r),
            old(self).cur() is RParen ==> (r matches Ok(v) && v@.len() == 0 && final(self).pos()
                == old(self).pos()),
            old(self).cur() is Void ==> (r matches Ok(v) && v@.len() == 0 && final(self).pos()
                == old(self).pos() + 1),
            !(old(self).cur() is RParen) && !(old(self).cur() is Void) ==> (r matches Ok(v) ==> {
                &&& v@.len() >= 1
                &&& final(self).pos() > old(self).pos()
                &&& !(final(self).cur() is Comma)
                &&& forall|i: int|
                    0 <= i < v@.len() ==> ident_between(
                        old(self).toks(),
                        old(self).pos() as int,
                        final(self).pos() as int,
                        (#[trigger] v@[i]).name@,
                    )
            }),
            params_parsed(r, final(self).pos(), params_spec(old(self).toks(), old(self).pos() as int)),
        decreases old(self).tokens@.len() - old(self).position, 40int,
    {
        proof {
            super::grammar::unfold_params_spec(old(self).toks(), old(self).pos() as int);
        }
        let mut params: Vec<Param> = Vec::new();
        assert(params_view(params@) =~= Seq::<(Seq<char>, super::ast::TypeView)>::empty());
        if self.check(&Token::RParen(self.current_location())) {
            return Ok(params);
        }
        // Special case: (void) means no parameters in C
        if self.check(&Token::Void(self.current_location())) {
            self.advance();  // consume 'void'
            return Ok(params);
        }
        loop
            invariant_except_break
                params_spec(old(self).toks(), old(self).pos() as int) == params_rest(
                    old(self).toks(),
                    self.pos() as int,
                    params_view(params@),
                ),
            invariant
                self.advanced_from(*old(self)),
                !(old(self).cur() is RParen),
                !(old(self).cur() is Void),
                params@.len() == 0 ==> self.pos() == old(self).pos(),
                params@.len() > 0 ==> self.pos() > old(self).pos(),
                forall|i: int|
                    0 <= i < params@.len() ==> ident_between(
                        old(self).toks(),
                        old(self).pos() as int,
                        self.pos() as int,
                        (#[trigger] params@[i]).name@,
                    ),
            ensures
                params@.len() >= 1,
                self.pos() > old(self).pos(),
                !(self.cur() is Comma),
                params_spec(old(self).toks(), old(self).pos() as int) == Ok::<
                    (Seq<(Seq<char>, super::ast::TypeView)>, int),
                    ErrV,
                >((params_view(params@), self.pos() as int)),
            decreases self.tokens@.len() - self.position,
        {
            proof {
                super::grammar::unfold_params_rest(old(self).toks(), self.pos() as int, params_view(params@));
            }
            let ghost before = self.position;
            let param_type = self.parse_type()?;
            let ghost at_name = self.position;
            let param_name = self.expect_identifier()?;
            proof {
                assert(ident_named(old(self).toks(), at_name as int, param_name@));
                assert forall|i: int| 0 <= i < params@.len() implies ident_between(
                    old(self).toks(),
                    old(self).pos() as int,
                    self.pos() as int,
                    (#[trigger] params@[i]).name@,
                ) by {
                    assert(ident_between(old(self).toks(), old(self).pos() as int, before as int, params@[i].name@));
                    let j = choose|j: int| old(self).pos() <= j < before && #[trigger] ident_named(old(self).toks(), j, params@[i].name@);
                    assert(ident_named(old(self).toks(), j, params@[i].name@));
                }
            }
            let ghost old_params = params@;
            let param = Param { name: param_name, param_type };
            params.push(param);
            assert(params_view(params@) =~= params_view(old_params).push((param.name@, param.param_type@)));
            proof {
                assert forall|i: int| 0 <= i < params@.len() implies ident_between(
                    old(self).toks(),
                    old(self).pos() as int,
                    self.pos() as int,
                    (#[trigger] params@[i]).name@,
                ) by {
                    if i < old_params.len() {
                        assert(params@[i] == old_params[i]);
                    } else {
                        assert(ident_named(old(self).toks(), at_name as int, params@[i].name@));
                    }
                }
            }
            if !self.match_token(&Token::Comma(self.current_location())) {
                break ;
            }
        }
        Ok(params)
    }

    /// Parse type: [const] base_type [*]* [[size]]*
    fn parse_type(&mut self) -> (r: Result<Type, ParseError>)
        requires
            old(self).wf(),
        ensures
            final(self).advanced_from(*old(self)),
            error_at_token(old(self).toks(), r),
            r is Ok ==> final(self).pos() > old(self).pos(),
            r is Ok ==> is_type_start(old(self).cur()),
            type_parsed(r, final(self).pos(), type_spec(old(self).toks(), old(self).pos() as int)),
        decreases old(self).tokens@.len() - old(self).position, 30int,
    {
        proof {
            super::grammar::unfold_type_spec(old(self).toks(), old(self).pos() as int);
        }
        let mut is_const = false;
        if self.match_token(&Token::Const(self.current_location())) {
            is_const = true;
        }
        // Parse base type
        let base = if self.match_token(&Token::Int(self.current_location())) {
            BaseType::Int
        } else if self.match_token(&Token::Char(self.current_location())) {
            BaseType::Char
        } else if self.match_token(&Token::Void(self.current_location())) {
            BaseType::Void
        } else if self.match_token(&Token::Struct(self.current_location())) {
            let name = self.expect_identifier()?;
            BaseType::Struct(name)
        } else {
            let mut m = String::from_str("Expected type, found ");
            m.append(self.peek().describe().as_str());
            return Err(parse_error(m, self.current_location()));
        };
        let ghost after_base = self.position;
        let ghost toks = old(self).toks();
        let mut pointer_depth: usize = 0;
        while self.match_token(&Token::Star(self.current_location()))
            invariant
                self.advanced_from(*old(self)),
                self.pos() >= after_base,
                after_base > old(self).pos(),
                pointer_depth == self.position - after_base,
                toks == old(self).toks(),
                stars_end(toks, after_base as int) == stars_end(toks, self.pos() as int),
            decreases self.tokens@.len() - self.position,
        {
            pointer_depth = pointer_depth + 1;
        }
        let ghost after_stars = self.position;
        let mut array_dims: Vec<Option<usize>> = Vec::new();
        assert(array_dims@ =~= Seq::<Option<usize>>::empty());
        while self.match_token(&Token::LBracket(self.current_location()))
            invariant
                self.advanced_from(*old(self)),
                self.pos() > old(self).pos(),
                toks == old(self).toks(),
                self.pos() >= after_stars,
                after_stars > old(self).pos(),
                type_spec(toks, old(self).pos() as int) == super::grammar::with_dims(
                    base_view(base),
                    is_const,
                    pointer_depth as nat,
                    dims_rest(toks, self.pos() as int, array_dims@),
                ),
            decreases self.tokens@.len() - self.position,
        {
            proof {
                super::grammar::unfold_dims_rest(old(self).toks(), self.pos() as int - 1, array_dims@);
            }
            if self.check(&Token::RBracket(self.current_location())) {
                // Unsized array []
                array_dims.push(None);
                self.advance();
            } else {
                // Sized array [N]; the size must be an integer literal
                let size_expr = self.parse_expression()?;
                match size_expr {
                    AstNode::IntLiteral(n, _) => {
                        array_dims.push(Some(n as usize));
                    },
                    _ => {
                        return Err(
                            parse_error(
                                String::from_str("Array size must be a constant integer"),
                                self.current_location(),
                            ),
                        );
                    },
                }
                self.expect_token(
                    &Token::RBracket(self.current_location()),
                    "Expected ']' after array size",
                )?;
            }
        }
        proof {
            super::grammar::unfold_dims_rest(toks, self.pos() as int, array_dims@);
        }
        Ok(Type { base, is_const, pointer_depth, array_dims })
    }

    /// Parse block statements (inside braces, excluding the braces themselves)
    fn parse_block_statements(&mut self) -> (r: Result<Vec<AstNode>, ParseError>)
        requires
            old(self).wf(),
        ensures
            final(self).advanced_from(*old(self)),
            error_at_token(old(self).toks(), r),
            r matches Ok(v) ==> nodes_at_tokens(old(self).toks(), v@),
            r matches Ok(v) ==> (final(self).cur() is RBrace || final(self).at_end()),
            r matches Ok(v) ==> (v@.len() == 0 <==> final(self).pos() == old(self).pos()),
            (old(self).cur() is RBrace || old(self).at_end()) ==> (r matches Ok(v) && v@.len() == 0
                && final(self).pos() == old(self).pos()),
            nodes_parsed(r, final(self).pos(), block_rest(old(self).toks(), old(self).pos() as int, Seq::empty())),
        decreases old(self).tokens@.len() - old(self).position, 33int,
    {
        let mut statements: Vec<AstNode> = Vec::new();
        assert(nodes_view(statements@) =~= Seq::<NodeView>::empty());
        while !self.check(&Token::RBrace(self.current_location())) && !self.is_at_end()
            invariant
                self.advanced_from(*old(self)),
                nodes_at_tokens(old(self).toks(), statements@),
                statements@.len() == 0 ==> self.pos() == old(self).pos(),
                statements@.len() > 0 ==> self.pos() > old(self).pos(),
                (old(self).cur() is RBrace || old(self).at_end()) ==> statements@.len() == 0,
                block_rest(old(self).toks(), old(self).pos() as int, Seq::empty()) == block_rest(
                    old(self).toks(),
                    self.pos() as int,
                    nodes_view(statements@),
                ),
            decreases self.tokens@.len() - self.position,
        {
            proof {
                super::grammar::unfold_block_rest(old(self).toks(), self.pos() as int, nodes_view(statements@));
            }
            let s = self.parse_statement()?;
            proof {
                assert(statements@.push(s)[statements@.len() as int] == s);
            }
            proof {
                lemma_nodes_view_push(statements@, s);
            }
            statements.push(s);
        }
        proof {
            super::grammar::unfold_block_rest(old(self).toks(), self.pos() as int, nodes_view(statements@));
            assert(nodes_view(statements@) =~= nodes_view(statements@));
        }
        Ok(statements)
    }

    /// Parse a statement
    fn parse_statement(&mut self) -> (r: Result<AstNode, ParseError>)
        requires
            old(self).wf(),
        ensures
            final(self).advanced_from(*old(self)),
            node_at_token(old(self).toks(), r),
            r is Ok ==> final(self).pos() > old(self).pos(),
            node_parsed(r, final(self).pos(), statement_spec(old(self).toks(), old(self).pos() as int)),
        decreases old(self).tokens@.len() - old(self).position, 32int,
    {
        proof {
            super::grammar::unfold_statement_spec(old(self).toks(), old(self).pos() as int);
        }
        let loc = self.current_location();
        // Check for keywords first
        if self.match_token(&Token::Return(loc)) {
            return self.parse_return_statement();
        }
        if self.match_token(&Token::If(loc)) {
            return self.parse_if_statement();
        }
        if self.match_token(&Token::While(loc)) {
            return self.parse_while_statement();
        }
        if self.match_token(&Token::Do(loc)) {
            return self.parse_do_while_statement();
        }
        if self.match_token(&Token::For(loc)) {
            return self.parse_for_statement();
        }
        if self.match_token(&Token::Switch(loc)) {
            return self.parse_switch_statement();
        }
        if self.match_token(&Token::Break(loc)) {
            self.expect_token(&Token::Semicolon(self.current_location()), "Expected ';' after 'break'")?;
            return Ok(AstNode::Break { location: loc });
        }
        if self.match_token(&Token::Continue(loc)) {
            self.expect_token(
                &Token::Semicolon(self.current_location()),
                "Expected ';' after 'continue'",
            )?;
            return Ok(AstNode::Continue { location: loc });
        }
        if self.match_token(&Token::Goto(loc)) {
            let label = self.expect_identifier()?;
            self.expect_token(&Token::Semicolon(self.current_location()), "Expected ';' after 'goto'")?;
            return Ok(AstNode::Goto { label, location: loc });
        }
        // Check for label: identifier followed by colon
        if self.check(&Token::Ident(String::new(), loc)) && self.next_is_colon() {
            let name = self.expect_identifier()?;
            self.expect_token(&Token::Colon(self.current_location()), "Expected ':' after label")?;
            return Ok(AstNode::Label { name, location: loc });
        }
        // Check for variable declaration (type followed by identifier)
        if self.is_type_keyword() {
            return self.parse_variable_declaration();
        }
        // Otherwise, it's an expression statement
        let expr = self.parse_expression()?;
        self.expect_token(&Token::Semicolon(self.current_location()), "Expected ';' after expression")?;
        Ok(AstNode::ExpressionStatement { expr: Box::new(expr), location: loc })
    }

    /// Parse return statement
    fn parse_return_statement(&mut self) -> (r: Result<AstNode, ParseError>)
        requires
            old(self).wf(),
            old(self).pos() > 0,
        ensures
            final(self).advanced_from(*old(self)),
            node_at_token(old(self).toks(), r),
            r matches Ok(n) ==> n is Return,
            node_parsed(r, final(self).pos(), return_spec(old(self).toks(), old(self).pos() as int)),
        decreases old(self).tokens@.len() - old(self).position, 30int,
    {
        proof {
            super::grammar::unfold_return_spec(old(self).toks(), old(self).pos() as int);
        }
        let loc = self.previous_location();
        let expr = if self.check(&Token::Semicolon(self.current_location())) {
            None
        } else {
            Some(Box::new(self.parse_expression()?))
        };
        self.expect_token(&Token::Semicolon(self.current_location()), "Expected ';' after return")?;
        Ok(AstNode::Return { expr, location: loc })
    }

    /// Parse if statement
    fn parse_if_statement(&mut self) -> (r: Result<AstNode, ParseError>)
        requires
            old(self).wf(),
            old(self).pos() > 0,
        ensures
            final(self).advanced_from(*old(self)),
            node_at_token(old(self).toks(), r),
            r matches Ok(n) ==> n is If,
            node_parsed(r, final(self).pos(), if_spec(old(self).toks(), old(self).pos() as int)),
        decreases old(self).tokens@.len() - old(self).position, 30int,
    {
        proof {
            super::grammar::unfold_if_spec(old(self).toks(), old(self).pos() as int);
        }
        let loc = self.previous_location();
        self.expect_token(&Token::LParen(self.current_location()), "Expected '(' after 'if'")?;
        let condition = Box::new(self.parse_expression()?);
        self.expect_token(&Token::RParen(self.current_location()), "Expected ')' after if condition")?;
        let then_branch = self.parse_statement_or_block()?;
        let else_branch = if self.match_token(&Token::Else(self.current_location())) {
            Some(self.parse_statement_or_block()?)
        } else {
            None
        };
        Ok(AstNode::If { condition, then_branch, else_branch, location: loc })
    }

    /// Parse while statement
    fn parse_while_statement(&mut self) -> (r: Result<AstNode, ParseError>)
        requires
            old(self).wf(),
            old(self).pos() > 0,
        ensures
            final(self).advanced_from(*old(self)),
            node_at_token(old(self).toks(), r),
            r matches Ok(n) ==> n is While,
            node_parsed(r, final(self).pos(), while_spec(old(self).toks(), old(self).pos() as int)),
        decreases old(self).tokens@.len() - old(self).position, 30int,
    {
        proof {
            super::grammar::unfold_while_spec(old(self).toks(), old(self).pos() as int);
        }
        let loc = self.previous_location();
        self.expect_token(&Token::LParen(self.current_location()), "Expected '(' after 'while'")?;
        let condition = Box::new(self.parse_expression()?);
        self.expect_token(
            &Token::RParen(self.current_location()),
            "Expected ')' after while condition",
        )?;
        let body = self.parse_statement_or_block()?;
        Ok(AstNode::While { condition, body, location: loc })
    }

    /// Parse do-while statement
    fn parse_do_while_statement(&mut self) -> (r: Result<AstNode, ParseError>)
        requires
            old(self).wf(),
            old(self).pos() > 0,
        ensures
            final(self).advanced_from(*old(self)),
            node_at_token(old(self).toks(), r),
            r matches Ok(n) ==> n is DoWhile,
            node_parsed(r, final(self).pos(), do_while_spec(old(self).toks(), old(self).pos() as int)),
        decreases old(self).tokens@.len() - old(self).position, 35int,
    {
        proof {
            super::grammar::unfold_do_while_spec(old(self).toks(), old(self).pos() as int);
        }
        let loc = self.previous_location();
        let body = self.parse_statement_or_block()?;
        self.expect_token(&Token::While(self.current_location()), "Expected 'while' after do body")?;
        self.expect_token(&Token::LParen(self.current_location()), "Expected '(' after 'while'")?;
        let condition = Box::new(self.parse_expression()?);
        self.expect_token(
            &Token::RParen(self.current_location()),
            "Expected ')' after do-while condition",
        )?;
        self.expect_token(&Token::Semicolon(self.current_location()), "Expected ';' after do-while")?;
        Ok(AstNode::DoWhile { body, condition, location: loc })
    }

    /// Parse for statement
    #[verifier::rlimit(50)]
    fn parse_for_statement(&mut self) -> (r: Result<AstNode, ParseError>)
        requires
            old(self).wf(),
            old(self).pos() > 0,
        ensures
            final(self).advanced_from(*old(self)),
            node_at_token(old(self).toks(), r),
            r matches Ok(n) ==> n is For,
            node_parsed(r, final(self).pos(), for_spec(old(self).toks(), old(self).pos() as int)),
        decreases old(self).tokens@.len() - old(self).position, 30int,
    {
        proof {
            super::grammar::unfold_for_spec(old(self).toks(), old(self).pos() as int);
        }
        let loc = self.previous_location();
        self.expect_token(&Token::LParen(self.current_location()), "Expected '(' after 'for'")?;
        // Init (optional)
        proof {
            super::grammar::unfold_for_init_spec(old(self).toks(), self.pos() as int);
        }
        let init = if self.check(&Token::Semicolon(self.current_location())) {
            self.advance();
            None
        } else if self.is_type_keyword() {
            // Variable declaration; it includes the semicolon
            let decl = self.parse_variable_declaration()?;
            Some(Box::new(decl))
        } else {
            // Expression
            let expr = self.parse_expression()?;
            self.expect_token(&Token::Semicolon(self.current_location()), "Expected ';' after for init")?;
            Some(Box::new(expr))
        };
        // Condition (optional)
        proof {
            super::grammar::unfold_optional_expr_spec(
                old(self).toks(),
                self.pos() as int,
                old(self).toks()[self.pos() as int] is Semicolon,
            );
        }
        let condition = if self.check(&Token::Semicolon(self.current_location())) {
            None
        } else {
            Some(Box::new(self.parse_expression()?))
        };
        self.expect_token(
            &Token::Semicolon(self.current_location()),
            "Expected ';' after for condition",
        )?;
        // Increment (optional)
        proof {
            super::grammar::unfold_optional_expr_spec(
                old(self).toks(),
                self.pos() as int,
                old(self).toks()[self.pos() as int] is RParen,
            );
        }
        let increment = if self.check(&Token::RParen(self.current_location())) {
            None
        } else {
            Some(Box::new(self.parse_expression()?))
        };
        self.expect_token(&Token::RParen(self.current_location()), "Expected ')' after for clauses")?;
        let body = self.parse_statement_or_block()?;
        Ok(AstNode::For { init, condition, increment, body, location: loc })
    }

    /// The statements of one switch case, up to the next case, default or `}`.
    fn parse_case_statements(&mut self) -> (r: Result<Vec<AstNode>, ParseError>)
        requires
            old(self).wf(),
            old(self).pos() > 0,
        ensures
            final(self).advanced_from(*old(self)),
            error_at_token(old(self).toks(), r),
            r matches Ok(v) ==> nodes_at_tokens(old(self).toks(), v@),
            r matches Ok(v) ==> ends_case(final(self).cur()),
            r matches Ok(v) ==> (v@.len() == 0 <==> final(self).pos() == old(self).pos()),
            ends_case(old(self).cur()) ==> (r matches Ok(v) && v@.len() == 0 && final(self).pos()
                == old(self).pos()),
            nodes_parsed(r, final(self).pos(), case_rest(old(self).toks(), old(self).pos() as int, Seq::empty())),
        decreases old(self).tokens@.len() - old(self).position, 36int,
    {
        let mut statements: Vec<AstNode> = Vec::new();
        assert(nodes_view(statements@) =~= Seq::<NodeView>::empty());
        while !self.check(&Token::Case(self.current_location())) && !self.check(
            &Token::Default(self.current_location()),
        ) && !self.check(&Token::RBrace(self.current_location())) && !self.is_at_end()
            invariant
                self.advanced_from(*old(self)),
                old(self).pos() > 0,
                nodes_at_tokens(old(self).toks(), statements@),
                statements@.len() == 0 ==> self.pos() == old(self).pos(),
                statements@.len() > 0 ==> self.pos() > old(self).pos(),
                ends_case(old(self).cur()) ==> statements@.len() == 0,
                case_rest(old(self).toks(), old(self).pos() as int, Seq::empty()) == case_rest(
                    old(self).toks(),
                    self.pos() as int,
                    nodes_view(statements@),
                ),
            decreases self.tokens@.len() - self.position,
        {
            proof {
                super::grammar::unfold_case_rest(old(self).toks(), self.pos() as int, nodes_view(statements@));
            }
            let s = self.parse_statement()?;
            proof {
                assert(statements@.push(s)[statements@.len() as int] == s);
            }
            proof {
                lemma_nodes_view_push(statements@, s);
            }
            statements.push(s);
        }
        proof {
            super::grammar::unfold_case_rest(old(self).toks(), self.pos() as int, nodes_view(statements@));
            assert(nodes_view(statements@) =~= nodes_view(statements@));
        }
        Ok(statements)
    }

    /// Parse switch statement
    fn parse_switch_statement(&mut self) -> (r: Result<AstNode, ParseError>)
        requires
            old(self).wf(),
            old(self).pos() > 0,
        ensures
            final(self).advanced_from(*old(self)),
            node_at_token(old(self).toks(), r),
            r matches Ok(n) ==> n is Switch,
            node_parsed(r, final(self).pos(), switch_spec(old(self).toks(), old(self).pos() as int)),
        decreases old(self).tokens@.len() - old(self).position, 31int,
    {
        proof {
            super::grammar::unfold_switch_spec(old(self).toks(), old(self).pos() as int);
        }
        let loc = self.previous_location();
        self.expect_token(&Token::LParen(self.current_location()), "Expected '(' after 'switch'")?;
        let expr = Box::new(self.parse_expression()?);
        self.expect_token(
            &Token::RParen(self.current_location()),
            "Expected ')' after switch expression",
        )?;
        self.expect_token(
            &Token::LBrace(self.current_location()),
            "Expected '{' before switch body",
        )?;
        let mut cases: Vec<CaseNode> = Vec::new();
        assert(cases_view(cases@) =~= Seq::<super::grammar::CaseView>::empty());
        while !self.check(&Token::RBrace(self.current_location())) && !self.is_at_end()
            invariant
                self.advanced_from(*old(self)),
                self.pos() > old(self).pos(),
                has_loc(old(self).toks(), loc),
                switch_spec(old(self).toks(), old(self).pos() as int) == switch_tail(
                    old(self).toks(),
                    node_view(*expr),
                    loc,
                    cases_rest(old(self).toks(), self.pos() as int, cases_view(cases@)),
                ),
            decreases self.tokens@.len() - self.position,
        {
            proof {
                super::grammar::unfold_cases_rest(old(self).toks(), self.pos() as int, cases_view(cases@));
            }
            if self.match_token(&Token::Case(self.current_location())) {
                let case_loc = self.previous_location();  // Capture case keyword location
                let value = self.parse_expression()?;
                self.expect_token(
                    &Token::Colon(self.current_location()),
                    "Expected ':' after case value",
                )?;
                let statements = self.parse_case_statements()?;
                let c = CaseNode::Case { value: Box::new(value), statements, location: case_loc };
                proof {
                    lemma_cases_view_push(cases@, c);
                }
                cases.push(c);
            } else if self.match_token(&Token::Default(self.current_location())) {
                let default_loc = self.previous_location();  // Capture default keyword location
                self.expect_token(
                    &Token::Colon(self.current_location()),
                    "Expected ':' after 'default'",
                )?;
                let statements = self.parse_case_statements()?;
                let c = CaseNode::Default { statements, location: default_loc };
                proof {
                    lemma_cases_view_push(cases@, c);
                }
                cases.push(c);
            } else {
                return Err(
                    parse_error(
                        String::from_str("Expected 'case' or 'default' in switch body"),
                        self.current_location(),
                    ),
                );
            }
        }
        proof {
            super::grammar::unfold_cases_rest(old(self).toks(), self.pos() as int, cases_view(cases@));
        }
        self.expect_token(&Token::RBrace(self.current_location()), "Expected '}' after switch body")?;
        Ok(AstNode::Switch { expr, cases, location: loc })
    }

    /// Parse variable declaration: type name[[size]]* [= init];
    /// Supports C-style array declarations: int arr[5];
    fn parse_variable_declaration(&mut self) -> (r: Result<AstNode, ParseError>)
        requires
            old(self).wf(),
        ensures
            final(self).advanced_from(*old(self)),
            node_at_token(old(self).toks(), r),
            r matches Ok(n) ==> n is VarDecl && final(self).pos() > old(self).pos(),
            node_parsed(r, final(self).pos(), var_decl_spec(old(self).toks(), old(self).pos() as int)),
        decreases old(self).tokens@.len() - old(self).position, 31int,
    {
        proof {
            super::grammar::unfold_var_decl_spec(old(self).toks(), old(self).pos() as int);
        }
        let mut var_type = self.parse_type()?;
        let name = self.expect_identifier()?;
        let loc = self.previous_location();
        let ghost q1 = self.pos() as int;
        let ghost t0 = var_type@;
        // Check for C-style array dimensions after the variable name: int arr[5];
        while self.match_token(&Token::LBracket(self.current_location()))
            invariant
                self.advanced_from(*old(self)),
                self.pos() > old(self).pos(),
                has_loc(old(self).toks(), loc),
                self.pos() >= q1,
                var_type@.base == t0.base,
                var_type@.is_const == t0.is_const,
                var_type@.pointer_depth == t0.pointer_depth,
                var_decl_spec(old(self).toks(), old(self).pos() as int) == var_decl_tail(
                    old(self).toks(),
                    q1,
                    name@,
                    t0,
                    loc,
                    dims_rest(old(self).toks(), self.pos() as int, var_type@.array_dims),
                ),
            decreases self.tokens@.len() - self.position,
        {
            proof {
                super::grammar::unfold_dims_rest(old(self).toks(), self.pos() as int - 1, var_type@.array_dims);
            }
            if self.check(&Token::RBracket(self.current_location())) {
                // Unsized array []
                var_type.array_dims.push(None);
                self.advance();
            } else {
                // Sized array [N]; the size must be an integer literal
                let size_expr = self.parse_expression()?;
                match size_expr {
                    AstNode::IntLiteral(n, _) => {
                        var_type.array_dims.push(Some(n as usize));
                    },
                    _ => {
                        return Err(
                            parse_error(
                                String::from_str("Array size must be a constant integer"),
                                self.current_location(),
                            ),
                        );
                    },
                }
                self.expect_token(
                    &Token::RBracket(self.current_location()),
                    "Expected ']' after array size",
                )?;
            }
        }
        proof {
            super::grammar::unfold_dims_rest(old(self).toks(), self.pos() as int, var_type@.array_dims);
        }
        let init = if self.match_token(&Token::Eq(self.current_location())) {
            Some(Box::new(self.parse_expression()?))
        } else {
            None
        };
        self.expect_token(
            &Token::Semicolon(self.current_location()),
            "Expected ';' after variable declaration",
        )?;
        Ok(AstNode::VarDecl { name, var_type, init, location: loc })
    }

    /// Parse statement or block (for if/while/for bodies)
    fn parse_statement_or_block(&mut self) -> (r: Result<Vec<AstNode>, ParseError>)
        requires
            old(self).wf(),
        ensures
            final(self).advanced_from(*old(self)),
            error_at_token(old(self).toks(), r),
            r matches Ok(v) ==> nodes_at_tokens(old(self).toks(), v@),
            r is Ok ==> final(self).pos() > old(self).pos(),
            old(self).cur() is LBrace ==> (r is Ok ==> final(self).toks()[final(self).pos() - 1] is RBrace),
            !(old(self).cur() is LBrace) ==> (r matches Ok(v) ==> v@.len() == 1),
            nodes_parsed(r, final(self).pos(), stmt_or_block_spec(old(self).toks(), old(self).pos() as int)),
        decreases old(self).tokens@.len() - old(self).position, 34int,
    {
        proof {
            super::grammar::unfold_stmt_or_block_spec(old(self).toks(), old(self).pos() as int);
        }
        if self.match_token(&Token::LBrace(self.current_location())) {
            let statements = self.parse_block_statements()?;
            self.expect_token(&Token::RBrace(self.current_location()), "Expected '}' after block")?;
            Ok(statements)
        } else {
            // Single statement
            let s = self.parse_statement()?;
            let mut v: Vec<AstNode> = Vec::new();
            v.push(s);
            proof {
                assert(v@[0] == s);
                assert(v@ =~= Seq::<AstNode>::empty().push(s));
                lemma_nodes_view_push(Seq::<AstNode>::empty(), s);
                assert(nodes_view(Seq::<AstNode>::empty()) =~= Seq::<NodeView>::empty());
                assert(nodes_view(v@) =~= seq![node_view(s)]);
            }
            Ok(v)
        }
    }

    /// Parse expression (top-level entry point)
    fn parse_expression(&mut self) -> (r: Result<AstNode, ParseError>)
        requires
            old(self).wf(),
        ensures
            final(self).advanced_from(*old(self)),
            node_at_token(old(self).toks(), r),
            r is Ok ==> final(self).pos() > old(self).pos(),
            node_parsed(r, final(self).pos(), expression_spec(old(self).toks(), old(self).pos() as int)),
        decreases old(self).tokens@.len() - old(self).position, 24int,
    {
        proof {
            super::grammar::unfold_expression_spec(old(self).toks(), old(self).pos() as int);
        }
        self.parse_assignment()
    }

    /// Parse assignment or ternary (right-associative)
    fn parse_assignment(&mut self) -> (r: Result<AstNode, ParseError>)
        requires
            old(self).wf(),
        ensures
            final(self).advanced_from(*old(self)),
            node_at_token(old(self).toks(), r),
            r is Ok ==> final(self).pos() > old(self).pos(),
            node_parsed(r, final(self).pos(), assignment_spec(old(self).toks(), old(self).pos() as int)),
        decreases old(self).tokens@.len() - old(self).position, 23int,
    {
        proof {
            super::grammar::unfold_assignment_spec(old(self).toks(), old(self).pos() as int);
        }
        let expr = self.parse_ternary()?;
        // Check for assignment operators
        let loc = self.current_location();
        if self.match_token(&Token::Eq(loc)) {
            let rhs = Box::new(self.parse_assignment()?);
            return Ok(AstNode::Assignment { lhs: Box::new(expr), rhs, location: loc });
        }
        // Compound assignments
        let compound = if self.match_token(&Token::PlusEq(loc)) {
            Some(BinOp::AddAssign)
        } else if self.match_token(&Token::MinusEq(loc)) {
            Some(BinOp::SubAssign)
        } else if self.match_token(&Token::StarEq(loc)) {
            Some(BinOp::MulAssign)
        } else if self.match_token(&Token::SlashEq(loc)) {
            Some(BinOp::DivAssign)
        } else if self.match_token(&Token::PercentEq(loc)) {
            Some(BinOp::ModAssign)
        } else {
            None
        };
        match compound {
            Some(op) => {
                let rhs = Box::new(self.parse_assignment()?);
                Ok(AstNode::CompoundAssignment { lhs: Box::new(expr), op, rhs, location: loc })
            },
            None => Ok(expr),
        }
    }

    /// Parse ternary: condition ? true_expr : false_expr
    fn parse_ternary(&mut self) -> (r: Result<AstNode, ParseError>)
        requires
            old(self).wf(),
        ensures
            final(self).advanced_from(*old(self)),
            node_at_token(old(self).toks(), r),
            r is Ok ==> final(self).pos() > old(self).pos(),
            node_parsed(r, final(self).pos(), ternary_spec(old(self).toks(), old(self).pos() as int)),
        decreases old(self).tokens@.len() - old(self).position, 22int,
    {
        proof {
            super::grammar::unfold_ternary_spec(old(self).toks(), old(self).pos() as int);
        }
        let expr = self.parse_logical_or()?;
        if self.match_token(&Token::Question(self.current_location())) {
            let loc = self.previous_location();
            let true_expr = Box::new(self.parse_expression()?);
            self.expect_token(
                &Token::Colon(self.current_location()),
                "Expected ':' in ternary expression",
            )?;
            let false_expr = Box::new(self.parse_ternary()?);
            return Ok(
                AstNode::TernaryOp { condition: Box::new(expr), true_expr, false_expr, location: loc },
            );
        }
        Ok(expr)
    }

    /// Consumes an operator of the given precedence level, if the current
    /// token is one, and returns the operator.
    fn match_binary_op(&mut self, level: u8) -> (r: Option<BinOp>)
        requires
            old(self).wf(),
        ensures
            final(self).wf(),
            final(self).toks() == old(self).toks(),
            r == binary_op_at(level, old(self).cur()),
            r is Some ==> final(self).pos() == old(self).pos() + 1,
            r is None ==> final(self).pos() == old(self).pos(),
    {
        let loc = self.current_location();
        if level == 1 {
            if self.match_token(&Token::Star(loc)) {
                Some(BinOp::Mul)
            } else if self.match_token(&Token::Slash(loc)) {
                Some(BinOp::Div)
            } else if self.match_token(&Token::Percent(loc)) {
                Some(BinOp::Mod)
            } else {
                None
            }
        } else if level == 2 {
            if self.match_token(&Token::Plus(loc)) {
                Some(BinOp::Add)
            } else if self.match_token(&Token::Minus(loc)) {
                Some(BinOp::Sub)
            } else {
                None
            }
        } else if level == 3 {
            if self.match_token(&Token::LtLt(loc)) {
                Some(BinOp::BitShl)
            } else if self.match_token(&Token::GtGt(loc)) {
                Some(BinOp::BitShr)
            } else {
                None
            }
        } else if level == 4 {
            if self.match_token(&Token::Lt(loc)) {
                Some(BinOp::Lt)
            } else if self.match_token(&Token::Le(loc)) {
                Some(BinOp::Le)
            } else if self.match_token(&Token::Gt(loc)) {
                Some(BinOp::Gt)
            } else if self.match_token(&Token::Ge(loc)) {
                Some(BinOp::Ge)
            } else {
                None
            }
        } else if level == 5 {
            if self.match_token(&Token::EqEq(loc)) {
                Some(BinOp::Eq)
            } else if self.match_token(&Token::NotEq(loc)) {
                Some(BinOp::Ne)
            } else {
                None
            }
        } else if level == 6 {
            if self.match_token(&Token::Amp(loc)) {
                Some(BinOp::BitAnd)
            } else {
                None
            }
        } else if level == 7 {
            if self.match_token(&Token::Caret(loc)) {
                Some(BinOp::BitXor)
            } else {
                None
            }
        } else if level == 8 {
            if self.match_token(&Token::Pipe(loc)) {
                Some(BinOp::BitOr)
            } else {
                None
            }
        } else if level == 9 {
            if self.match_token(&Token::AndAnd(loc)) {
                Some(BinOp::And)
            } else {
                None
            }
        } else if level == 10 {
            if self.match_token(&Token::OrOr(loc)) {
                Some(BinOp::Or)
            } else {
                None
            }
        } else {
            None
        }
    }

    /// Parse a left-associative chain of binary operators of one precedence
    /// level (see [`binary_op_at`]), whose operands are of the next level.
    fn parse_left_assoc_binary(&mut self, level: u8) -> (r: Result<AstNode, ParseError>)
        requires
            old(self).wf(),
            1 <= level <= 10,
        ensures
            final(self).advanced_from(*old(self)),
            node_at_token(old(self).toks(), r),
            r is Ok ==> final(self).pos() > old(self).pos(),
            node_parsed(r, final(self).pos(), binary_spec(old(self).toks(), old(self).pos() as int, level as int)),
        decreases old(self).tokens@.len() - old(self).position, 10 + level,
    {
        proof {
            super::grammar::unfold_binary_spec(old(self).toks(), old(self).pos() as int, level as int);
            super::grammar::unfold_operand_spec(old(self).toks(), old(self).pos() as int, level as int);
        }
        let mut left = if level == 1 {
            self.parse_cast()?
        } else {
            self.parse_left_assoc_binary(level - 1)?
        };
        loop
            invariant
                self.advanced_from(*old(self)),
                self.pos() > old(self).pos(),
                1 <= level <= 10,
                has_loc(old(self).toks(), left.loc()),
                binary_spec(old(self).toks(), old(self).pos() as int, level as int) == binary_rest(
                    old(self).toks(),
                    self.pos() as int,
                    level as int,
                    node_view(left),
                ),
            ensures
                binary_spec(old(self).toks(), old(self).pos() as int, level as int) == Ok::<
                    (NodeView, int),
                    ErrV,
                >((node_view(left), self.pos() as int)),
            decreases self.tokens@.len() - self.position,
        {
            proof {
                super::grammar::unfold_binary_rest(old(self).toks(), self.pos() as int, level as int, node_view(left));
                super::grammar::unfold_operand_spec(old(self).toks(), self.pos() as int + 1, level as int);
            }
            let loc = self.current_location();
            let op = match self.match_binary_op(level) {
                Some(op) => op,
                None => {
                    break ;
                },
            };
            let right = if level == 1 {
                self.parse_cast()?
            } else {
                self.parse_left_assoc_binary(level - 1)?
            };
            left = AstNode::BinaryOp { op, left: Box::new(left), right: Box::new(right), location: loc };
        }
        Ok(left)
    }

    /// Parse a binary expression: logical OR (||) over the operator levels
    /// below it, down to the multiplicative one.
    fn parse_logical_or(&mut self) -> (r: Result<AstNode, ParseError>)
        requires
            old(self).wf(),
        ensures
            final(self).advanced_from(*old(self)),
            node_at_token(old(self).toks(), r),
            r is Ok ==> final(self).pos() > old(self).pos(),
            node_parsed(r, final(self).pos(), binary_spec(old(self).toks(), old(self).pos() as int, 10)),
        decreases old(self).tokens@.len() - old(self).position, 21int,
    {
        self.parse_left_assoc_binary(10)
    }

    /// Parse cast: (Type*)expr
    fn parse_cast(&mut self) -> (r: Result<AstNode, ParseError>)
        requires
            old(self).wf(),
        ensures
            final(self).advanced_from(*old(self)),
            node_at_token(old(self).toks(), r),
            r is Ok ==> final(self).pos() > old(self).pos(),
            node_parsed(r, final(self).pos(), cast_spec(old(self).toks(), old(self).pos() as int)),
        decreases old(self).tokens@.len() - old(self).position, 7int,
    {
        proof {
            super::grammar::unfold_cast_spec(old(self).toks(), old(self).pos() as int);
        }
        // Check for cast: ( followed by type keyword
        if self.check(&Token::LParen(self.current_location())) {
            let saved_pos = self.position;
            // Try parsing as cast
            let attempt = self.try_parse_cast();
            if attempt.is_ok() {
                // Restore and actually parse it
                self.position = saved_pos;
                self.advance();  // consume '('
                let target_type = self.parse_type()?;
                self.expect_token(
                    &Token::RParen(self.current_location()),
                    "Expected ')' after cast type",
                )?;
                let loc = self.previous_location();
                let expr = Box::new(self.parse_cast()?);
                return Ok(AstNode::Cast { target_type, expr, location: loc });
            } else {
                self.position = saved_pos;
            }
        }
        self.parse_unary()
    }

    /// Try to parse cast (used for lookahead)
    fn try_parse_cast(&mut self) -> (r: Result<(), ParseError>)
        requires
            old(self).wf(),
        ensures
            final(self).advanced_from(*old(self)),
            error_at_token(old(self).toks(), r),
            !(old(self).cur() is LParen) ==> {
                &&& final(self).pos() == old(self).pos()
                &&& r matches Err(e) && e.message@ == "Not a cast"@ && e.location == old(self).cur().loc()
            },
            r is Ok ==> {
                &&& old(self).cur() is LParen
                &&& is_type_start(old(self).toks()[old(self).pos() as int + 1])
                &&& final(self).pos() >= old(self).pos() + 3
                &&& final(self).toks()[final(self).pos() - 1] is RParen
            },
            match try_cast_spec(old(self).toks(), old(self).pos() as int) {
                Ok(q) => r is Ok && final(self).pos() == q,
                Err(e) => r matches Err(x) && same_error(x, e),
            },
        decreases old(self).tokens@.len() - old(self).position, 6int,
    {
        proof {
            super::grammar::unfold_try_cast_spec(old(self).toks(), old(self).pos() as int);
        }
        if !self.match_token(&Token::LParen(self.current_location())) {
            return Err(parse_error(String::from_str("Not a cast"), self.current_location()));
        }
        self.parse_type()?;
        if !self.match_token(&Token::RParen(self.current_location())) {
            return Err(parse_error(String::from_str("Not a cast"), self.current_location()));
        }
        Ok(())
    }

    /// A prefix operator applied to the unary expression that follows it.
    fn parse_prefix(&mut self, op: UnOp, loc: SourceLocation) -> (r: Result<AstNode, ParseError>)
        requires
            old(self).wf(),
            has_loc(old(self).toks(), loc),
        ensures
            final(self).advanced_from(*old(self)),
            node_at_token(old(self).toks(), r),
            r is Ok ==> final(self).pos() > old(self).pos(),
            node_parsed(r, final(self).pos(), prefix_spec(old(self).toks(), old(self).pos() as int, op, loc)),
        decreases old(self).tokens@.len() - old(self).position, 6int,
    {
        proof {
            super::grammar::unfold_prefix_spec(old(self).toks(), old(self).pos() as int, op, loc);
        }
        let operand = Box::new(self.parse_unary()?);
        Ok(AstNode::UnaryOp { op, operand, location: loc })
    }

    /// Parse unary (! ~ - + & * ++ -- sizeof)
    #[verifier::rlimit(50)]
    fn parse_unary(&mut self) -> (r: Result<AstNode, ParseError>)
        requires
            old(self).wf(),
        ensures
            final(self).advanced_from(*old(self)),
            node_at_token(old(self).toks(), r),
            r is Ok ==> final(self).pos() > old(self).pos(),
            node_parsed(r, final(self).pos(), unary_spec(old(self).toks(), old(self).pos() as int)),
        decreases old(self).tokens@.len() - old(self).position, 5int,
    {
        proof {
            super::grammar::unfold_unary_spec(old(self).toks(), old(self).pos() as int);
        }
        let loc = self.current_location();
        // Prefix operators
        if self.match_token(&Token::Bang(loc)) {
            return self.parse_prefix(UnOp::Not, loc);
        }
        if self.match_token(&Token::Tilde(loc)) {
            return self.parse_prefix(UnOp::BitNot, loc);
        }
        if self.match_token(&Token::Minus(loc)) {
            return self.parse_prefix(UnOp::Neg, loc);
        }
        if self.match_token(&Token::Plus(loc)) {
            // Unary plus: just return the operand
            return self.parse_unary();
        }
        if self.match_token(&Token::Amp(loc)) {
            return self.parse_prefix(UnOp::AddrOf, loc);
        }
        if self.match_token(&Token::Star(loc)) {
            return self.parse_prefix(UnOp::Deref, loc);
        }
        if self.match_token(&Token::PlusPlus(loc)) {
            return self.parse_prefix(UnOp::PreInc, loc);
        }
        if self.match_token(&Token::MinusMinus(loc)) {
            return self.parse_prefix(UnOp::PreDec, loc);
        }
        if self.match_token(&Token::Sizeof(loc)) {
            self.expect_token(&Token::LParen(self.current_location()), "Expected '(' after 'sizeof'")?;
            // Try to parse as type
            let saved_pos = self.position;
            if self.is_type_keyword() {
                let target_type = self.parse_type()?;
                if self.match_token(&Token::RParen(self.current_location())) {
                    return Ok(AstNode::SizeofType { target_type, location: loc });
                }
            }
            // Otherwise, parse as expression
            self.position = saved_pos;
            let expr = Box::new(self.parse_expression()?);
            self.expect_token(
                &Token::RParen(self.current_location()),
                "Expected ')' after sizeof expression",
            )?;
            return Ok(AstNode::SizeofExpr { expr, location: loc });
        }
        self.parse_postfix()
    }

    /// Parse postfix (++ -- [] . -> ())
    #[verifier::rlimit(50)]
    fn parse_postfix(&mut self) -> (r: Result<AstNode, ParseError>)
        requires
            old(self).wf(),
        ensures
            final(self).advanced_from(*old(self)),
            node_at_token(old(self).toks(), r),
            r is Ok ==> final(self).pos() > old(self).pos(),
            node_parsed(r, final(self).pos(), postfix_spec(old(self).toks(), old(self).pos() as int)),
        decreases old(self).tokens@.len() - old(self).position, 4int,
    {
        proof {
            super::grammar::unfold_postfix_spec(old(self).toks(), old(self).pos() as int);
        }
        let mut expr = self.parse_primary()?;
        loop
            invariant
                self.advanced_from(*old(self)),
                self.pos() > old(self).pos(),
                has_loc(old(self).toks(), expr.loc()),
                postfix_spec(old(self).toks(), old(self).pos() as int) == postfix_rest(
                    old(self).toks(),
                    self.pos() as int,
                    node_view(expr),
                ),
            ensures
                postfix_spec(old(self).toks(), old(self).pos() as int) == Ok::<(NodeView, int), ErrV>(
                    (node_view(expr), self.pos() as int),
                ),
            decreases self.tokens@.len() - self.position,
        {
            proof {
                super::grammar::unfold_postfix_rest(old(self).toks(), self.pos() as int, node_view(expr));
            }
            let loc = self.current_location();
            if self.match_token(&Token::PlusPlus(loc)) {
                expr = AstNode::UnaryOp { op: UnOp::PostInc, operand: Box::new(expr), location: loc };
            } else if self.match_token(&Token::MinusMinus(loc)) {
                expr = AstNode::UnaryOp { op: UnOp::PostDec, operand: Box::new(expr), location: loc };
            } else if self.match_token(&Token::LBracket(loc)) {
                let index = Box::new(self.parse_expression()?);
                self.expect_token(
                    &Token::RBracket(self.current_location()),
                    "Expected ']' after array index",
                )?;
                expr = AstNode::ArrayAccess { array: Box::new(expr), index, location: loc };
            } else if self.match_token(&Token::Dot(loc)) {
                let member = self.expect_identifier()?;
                expr = AstNode::MemberAccess { object: Box::new(expr), member, location: loc };
            } else if self.match_token(&Token::Arrow(loc)) {
                let member = self.expect_identifier()?;
                expr = AstNode::PointerMemberAccess { object: Box::new(expr), member, location: loc };
            } else if self.match_token(&Token::LParen(loc)) {
                // Function call
                let args = self.parse_argument_list()?;
                self.expect_token(
                    &Token::RParen(self.current_location()),
                    "Expected ')' after function arguments",
                )?;
                // Extract function name from expr
                let name = match expr {
                    AstNode::Variable(n, _) => n,
                    _ => {
                        return Err(
                            parse_error(String::from_str("Function call must be on identifier"), loc),
                        );
                    },
                };
                expr = AstNode::FunctionCall { name, args, location: loc };
            } else {
                break ;
            }
        }
        Ok(expr)
    }

    /// Parse argument list: (expr, expr, ...)
    fn parse_argument_list(&mut self) -> (r: Result<Vec<AstNode>, ParseError>)
        requires
            old(self).wf(),
        ensures
            final(self).advanced_from(*old(self)),
            error_at_token(old(self).toks(), r),
            r matches Ok(v) ==> nodes_at_tokens(old(self).toks(), v@),
            old(self).cur() is RParen ==> (r matches Ok(v) && v@.len() == 0 && final(self).pos()
                == old(self).pos()),
            !(old(self).cur() is RParen) ==> (r matches Ok(v) ==> {
                &&& v@.len() >= 1
                &&& final(self).pos() > old(self).pos()
                &&& !(final(self).cur() is Comma)
            }),
            nodes_parsed(r, final(self).pos(), arguments_spec(old(self).toks(), old(self).pos() as int)),
        decreases old(self).tokens@.len() - old(self).position, 25int,
    {
        proof {
            super::grammar::unfold_arguments_spec(old(self).toks(), old(self).pos() as int);
        }
        let mut args: Vec<AstNode> = Vec::new();
        if self.check(&Token::RParen(self.current_location())) {
            return Ok(args);
        }
        loop
            invariant_except_break
                arguments_spec(old(self).toks(), old(self).pos() as int) == arguments_rest(
                    old(self).toks(),
                    self.pos() as int,
                    nodes_view(args@),
                ),
            invariant
                self.advanced_from(*old(self)),
                nodes_at_tokens(old(self).toks(), args@),
                args@.len() == 0 ==> self.pos() == old(self).pos(),
                args@.len() > 0 ==> self.pos() > old(self).pos(),
                !(old(self).cur() is RParen),
            ensures
                args@.len() >= 1,
                self.pos() > old(self).pos(),
                !(self.cur() is Comma),
                arguments_spec(old(self).toks(), old(self).pos() as int) == Ok::<(Seq<NodeView>, int), ErrV>(
                    (nodes_view(args@), self.pos() as int),
                ),
            decreases self.tokens@.len() - self.position,
        {
            proof {
                super::grammar::unfold_arguments_rest(old(self).toks(), self.pos() as int, nodes_view(args@));
            }
            let a = self.parse_expression()?;
            proof {
                assert(args@.push(a)[args@.len() as int] == a);
                lemma_nodes_view_push(args@, a);
            }
            args.push(a);
            if !self.match_token(&Token::Comma(self.current_location())) {
                break ;
            }
        }
        Ok(args)
    }

    /// Parse primary (literals, variables, parenthesized expressions)
    fn parse_primary(&mut self) -> (r: Result<AstNode, ParseError>)
        requires
            old(self).wf(),
        ensures
            final(self).advanced_from(*old(self)),
            node_at_token(old(self).toks(), r),
            r is Ok ==> final(self).pos() > old(self).pos(),
            match old(self).cur() {
                Token::IntLiteral(n, l) => r matches Ok(AstNode::IntLiteral(m, k)) && m == n
                    && k == l,
                Token::CharLiteral(c, l) => r matches Ok(AstNode::CharLiteral(d, k)) && d == c
                    && k == l,
                Token::StringLiteral(s, l) => r matches Ok(AstNode::StringLiteral(t, k)) && t@
                    == s && k == l,
                Token::Ident(s, l) => r matches Ok(AstNode::Variable(t, k)) && t@ == s && k == l,
                Token::Null(l) => r matches Ok(AstNode::Null { location }) && location == l,
                Token::LParen(_) => true,
                t => r matches Err(e) && e.message@ == "Unexpected token: "@
                    + super::token::describe_token(t) && e.location == t.loc(),
            },
            node_parsed(r, final(self).pos(), primary_spec(old(self).toks(), old(self).pos() as int)),
        decreases old(self).tokens@.len() - old(self).position, 3int,
    {
        proof {
            super::grammar::unfold_primary_spec(old(self).toks(), old(self).pos() as int);
        }
        let loc = self.current_location();
        let tok = self.peek();
        match tok {
            Token::IntLiteral(n, l) => {
                let node = AstNode::IntLiteral(*n, *l);
                self.advance();
                return Ok(node);
            },
            Token::CharLiteral(c, l) => {
                let node = AstNode::CharLiteral(*c, *l);
                self.advance();
                return Ok(node);
            },
            Token::StringLiteral(s, l) => {
                let node = AstNode::StringLiteral(s.clone(), *l);
                self.advance();
                return Ok(node);
            },
            Token::Ident(s, l) => {
                let node = AstNode::Variable(s.clone(), *l);
                self.advance();
                return Ok(node);
            },
            _ => {},
        }
        // NULL
        if self.match_token(&Token::Null(loc)) {
            return Ok(AstNode::Null { location: loc });
        }
        // Parenthesized expression
        if self.match_token(&Token::LParen(loc)) {
            let expr = self.parse_expression()?;
            self.expect_token(&Token::RParen(self.current_location()), "Expected ')' after expression")?;
            return Ok(expr);
        }
        let mut m = String::from_str("Unexpected token: ");
        m.append(self.peek().describe().as_str());
        Err(parse_error(m, loc))
    }

    // ===== Helper methods =====
    fn is_type_keyword(&self) -> (r: bool)
        requires
            self.wf(),
        ensures
            r == is_type_start(self.cur()),
    {
        match self.peek() {
            Token::Int(_) | Token::Char(_) | Token::Void(_) | Token::Struct(_)
            | Token::Const(_) => true,
            _ => false,
        }
    }

    fn match_token(&mut self, token: &Token) -> (r: bool)
        requires
            old(self).wf(),
            !(token@ is Eof),
        ensures
            final(self).wf(),
            final(self).toks() == old(self).toks(),
            r == (old(self).cur().kind() == token@.kind()),
            r ==> final(self).pos() == old(self).pos() + 1,
            !r ==> final(self).pos() == old(self).pos(),
    {
        if self.check(token) {
            self.advance();
            true
        } else {
            false
        }
    }

    fn check(&self, token: &Token) -> (r: bool)
        requires
            self.wf(),
        ensures
            r == (self.cur().kind() == token@.kind()),
    {
        self.peek().same_kind(token)
    }

    fn advance(&mut self) -> (r: &Token)
        requires
            old(self).wf(),
            old(self).pos() > 0 || !old(self).at_end(),
        ensures
            final(self).wf(),
            final(self).toks() == old(self).toks(),
            old(self).at_end() ==> final(self).pos() == old(self).pos(),
            !old(self).at_end() ==> final(self).pos() == old(self).pos() + 1,
            final(self).pos() > 0,
            r@ == final(self).toks()[final(self).pos() - 1],
    {
        proof {
            self.lemma_view_len();
        }
        let len = self.tokens.len();
        if !self.is_at_end() {
            proof {
                if self.position == len - 1 {
                    assert(self.toks()[len - 1] == self.toks().last());
                }
            }
            self.position += 1;
        }
        self.previous()
    }

    fn is_at_end(&self) -> (r: bool)
        requires
            self.wf(),
        ensures
            r == self.at_end(),
    {
        match self.peek() {
            Token::Eof(_) => true,
            _ => false,
        }
    }

    fn peek(&self) -> (r: &Token)
        requires
            self.wf(),
        ensures
            r@ == self.cur(),
    {
        proof {
            self.lemma_view_len();
        }
        &self.tokens[self.position]
    }

    fn peek_ahead(&self, n: usize) -> (r: Option<&Token>)
        requires
            self.wf(),
        ensures
            match r {
                Some(t) => self.pos() + n < self.toks().len() && t@ == self.toks()[self.pos() + n],
                None => self.pos() + n >= self.toks().len(),
            },
    {
        proof {
            self.lemma_view_len();
        }
        if n < self.tokens.len() - self.position {
            Some(&self.tokens[self.position + n])
        } else {
            None
        }
    }

    /// Whether the token after the current one is a `:`.
    fn next_is_colon(&self) -> (r: bool)
        requires
            self.wf(),
        ensures
            r == (self.pos() + 1 < self.toks().len() && self.toks()[self.pos() as int + 1] is Colon),
    {
        match self.peek_ahead(1) {
            Some(t) => match t {
                Token::Colon(_) => true,
                _ => false,
            },
            None => false,
        }
    }

    fn previous(&self) -> (r: &Token)
        requires
            self.wf(),
            self.pos() > 0,
        ensures
            r@ == self.toks()[self.pos() - 1],
    {
        proof {
            self.lemma_view_len();
        }
        &self.tokens[self.position - 1]
    }

    fn previous_location(&self) -> (r: SourceLocation)
        requires
            self.wf(),
            self.pos() > 0,
        ensures
            r == self.toks()[self.pos() - 1].loc(),
            has_loc(self.toks(), r),
    {
        let r = self.previous().location();
        proof {
            assert(self.toks()[self.pos() - 1].loc() == r);
        }
        r
    }

    fn current_location(&self) -> (r: SourceLocation)
        requires
            self.wf(),
        ensures
            r == self.cur().loc(),
            has_loc(self.toks(), r),
    {
        let r = self.peek().location();
        proof {
            assert(self.toks()[self.pos() as int].loc() == r);
        }
        r
    }

    fn expect_token(&mut self, token: &Token, message: &str) -> (r: Result<(), ParseError>)
        requires
            old(self).wf(),
            !(token@ is Eof),
        ensures
            final(self).wf(),
            final(self).toks() == old(self).toks(),
            error_at_token(old(self).toks(), r),
            old(self).cur().kind() == token@.kind() ==> r is Ok && final(self).pos() == old(
                self,
            ).pos() + 1,
            old(self).cur().kind() != token@.kind() ==> {
                &&& final(self).pos() == old(self).pos()
                &&& r matches Err(e) && e.message@ == message@ + ", found "@
                    + super::token::describe_token(old(self).cur()) && e.location == old(
                    self,
                ).cur().loc()
            },
    {
        if self.check(token) {
            self.advance();
            Ok(())
        } else {
            let mut m = String::from_str(message);
            m.append(", found ");
            m.append(self.peek().describe().as_str());
            Err(parse_error(m, self.current_location()))
        }
    }

    fn expect_identifier(&mut self) -> (r: Result<String, ParseError>)
        requires
            old(self).wf(),
        ensures
            final(self).wf(),
            final(self).toks() == old(self).toks(),
            error_at_token(old(self).toks(), r),
            match old(self).cur() {
                Token::Ident(s, _) => r matches Ok(name) && name@ == s && final(self).pos()
                    == old(self).pos() + 1,
                t => {
                    &&& final(self).pos() == old(self).pos()
                    &&& r matches Err(e) && e.message@ == "Expected identifier, found "@
                        + super::token::describe_token(t) && e.location == t.loc()
                },
            },
    {
        match self.peek() {
            Token::Ident(name, _) => {
                let n = name.clone();
                self.advance();
                Ok(n)
            },
            _ => {
                let mut m = String::from_str("Expected identifier, found ");
                m.append(self.peek().describe().as_str());
                Err(parse_error(m, self.current_location()))
            },
        }
    }
}

} // verus!
