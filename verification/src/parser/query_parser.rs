//! Parses the tokens of a query into a tagged `Query`.
use vstd::prelude::*;
use vstd::string::*;
use crate::parser::errors::{ParseError, ParseErrorView, ParseResult};
use crate::parser::expression_tree::{parse_tree, parse_tree_spec, strings_view, Node, NodeView};
use crate::parser::lexer::{
    float_reader_total,
    lex,
    lexing_needs_floats,
    no_float_texts,
    lex_spec,
    reads_floats_as,
    tokens_view,
    LexerToken,
    TokenView,
};

verus! {

/// A parsed query.
#[derive(Debug, PartialEq)]
pub enum Query {
    Select { body: Vec<LexerToken>, table_name: String, where_body: Option<Node> },
    Insert { values: Vec<LexerToken>, columns: Vec<String>, table_name: String },
    Delete { table_name: String, where_body: Option<Node> },
    CreateTable { table_name: String, columns_definition: Vec<(String, String)> },
    CreateIndex { column_name: String, table_name: String },
    DropIndex { column_name: String, table_name: String },
    DropTable { table_name: String },
}

/// What a `Query` is, over the views of its parts.
pub enum QueryView {
    Select { body: Seq<TokenView>, table_name: Seq<char>, where_body: Option<NodeView> },
    Insert { values: Seq<TokenView>, columns: Seq<Seq<char>>, table_name: Seq<char> },
    Delete { table_name: Seq<char>, where_body: Option<NodeView> },
    CreateTable { table_name: Seq<char>, columns_definition: Seq<(Seq<char>, Seq<char>)> },
    CreateIndex { column_name: Seq<char>, table_name: Seq<char> },
    DropIndex { column_name: Seq<char>, table_name: Seq<char> },
    DropTable { table_name: Seq<char> },
}

/// The view of an optional tree.
pub open spec fn tree_view(tree: Option<Node>) -> Option<NodeView> {
    match tree {
        Some(node) => Some(node@),
        None => None,
    }
}

/// The views of a sequence of column definitions: pairs of a name and a type name.
pub open spec fn definitions_view(definitions: Seq<(String, String)>) -> Seq<
    (Seq<char>, Seq<char>),
> {
    definitions.map_values(|d: (String, String)| (d.0@, d.1@))
}

impl View for Query {
    type V = QueryView;

    open spec fn view(&self) -> QueryView {
        match self {
            Query::Select { body, table_name, where_body } => QueryView::Select {
                body: tokens_view(body@),
                table_name: table_name@,
                where_body: tree_view(*where_body),
            },
            Query::Insert { values, columns, table_name } => QueryView::Insert {
                values: tokens_view(values@),
                columns: strings_view(columns@),
                table_name: table_name@,
            },
            Query::Delete { table_name, where_body } => QueryView::Delete {
                table_name: table_name@,
                where_body: tree_view(*where_body),
            },
            Query::CreateTable { table_name, columns_definition } => QueryView::CreateTable {
                table_name: table_name@,
                columns_definition: definitions_view(columns_definition@),
            },
            Query::CreateIndex { column_name, table_name } => QueryView::CreateIndex {
                column_name: column_name@,
                table_name: table_name@,
            },
            Query::DropIndex { column_name, table_name } => QueryView::DropIndex {
                column_name: column_name@,
                table_name: table_name@,
            },
            Query::DropTable { table_name } => QueryView::DropTable { table_name: table_name@ },
        }
    }
}

/// What a step of the query parser produces: a value and the position behind it.
pub type Step<T> = Result<(T, int), ParseErrorView>;

/// The position behind `token` where it stands at `index`, else `index` itself.
pub open spec fn skip_token(tokens: Seq<TokenView>, index: int, token: TokenView) -> int {
    if 0 <= index < tokens.len() && tokens[index].equal(token) {
        index + 1
    } else {
        index
    }
}

/// Demands `required` at `index`; `name` is how the error names what was expected.
pub open spec fn require_token_spec(
    tokens: Seq<TokenView>,
    index: int,
    required: TokenView,
    name: Seq<char>,
) -> Step<()> {
    if index < 0 || index >= tokens.len() {
        Err(ParseErrorView::UnexpectedQueryEnding)
    } else if tokens[index].equal(required) {
        Ok(((), index + 1))
    } else {
        Err(ParseErrorView::UnexpectedToken(name, tokens[index]))
    }
}

/// Demands an identifier at `index`.
pub open spec fn require_identifier_spec(tokens: Seq<TokenView>, index: int) -> Step<Seq<char>> {
    if index < 0 || index >= tokens.len() {
        Err(ParseErrorView::UnexpectedQueryEnding)
    } else {
        match tokens[index] {
            TokenView::Identifier(id) => Ok((id, index + 1)),
            token => Err(ParseErrorView::UnexpectedToken("identifier"@, token)),
        }
    }
}

/// Demands the name of a data type at `index`.
pub open spec fn require_datatype_spec(tokens: Seq<TokenView>, index: int) -> Step<Seq<char>> {
    if index < 0 || index >= tokens.len() {
        Err(ParseErrorView::UnexpectedQueryEnding)
    } else {
        match tokens[index] {
            TokenView::DataType(datatype) => Ok((datatype, index + 1)),
            token => Err(ParseErrorView::UnexpectedToken("data-type"@, token)),
        }
    }
}

/// Whether a token may stand in the body of a `SELECT` or among the values of an `INSERT`.
pub open spec fn is_body_token(token: TokenView) -> bool {
    token is Identifier || token is FloatNumberLiteral || token is BoolLiteral
        || token is NumberLiteral || token is StringLiteral || token is Star || token is ParOpen
        || token is ParClose || token is Null
}

/// Demands a body token at `index`.
pub open spec fn require_body_token_spec(tokens: Seq<TokenView>, index: int) -> Step<TokenView> {
    if index < 0 || index >= tokens.len() {
        Err(ParseErrorView::UnexpectedQueryEnding)
    } else if is_body_token(tokens[index]) {
        Ok((tokens[index], index + 1))
    } else {
        Err(ParseErrorView::UnexpectedToken("expression body"@, tokens[index]))
    }
}

/// Demands `TABLE` or `INDEX` at `index`; the value says whether it was `TABLE`.
pub open spec fn require_table_or_index_spec(tokens: Seq<TokenView>, index: int) -> Step<bool> {
    if index < 0 || index >= tokens.len() {
        Err(ParseErrorView::UnexpectedQueryEnding)
    } else if tokens[index] == TokenView::Table {
        Ok((true, index + 1))
    } else if tokens[index] == TokenView::Index {
        Ok((false, index + 1))
    } else {
        Err(ParseErrorView::UnexpectedToken("table name or identifier"@, tokens[index]))
    }
}

/// A body: one or more body tokens, each with an optional comma behind it, up to `FROM` or
/// the end of the tokens. `acc` holds the tokens read so far.
pub open spec fn body_spec(tokens: Seq<TokenView>, index: int, acc: Seq<TokenView>) -> Step<
    Seq<TokenView>,
>
    decreases tokens.len() - index,
{
    match require_body_token_spec(tokens, index) {
        Err(e) => Err(e),
        Ok((token, next)) => {
            let after = skip_token(tokens, next, TokenView::Comma);
            if after >= tokens.len() || tokens[after] == TokenView::From {
                Ok((acc.push(token), after))
            } else {
                body_spec(tokens, after, acc.push(token))
            }
        },
    }
}

/// Column definitions: pairs of an identifier and a data type, with commas between them.
pub open spec fn columns_definition_spec(
    tokens: Seq<TokenView>,
    index: int,
    acc: Seq<(Seq<char>, Seq<char>)>,
) -> Step<Seq<(Seq<char>, Seq<char>)>>
    decreases tokens.len() - index,
{
    match require_identifier_spec(tokens, index) {
        Err(e) => Err(e),
        Ok((identifier, next)) => match require_datatype_spec(tokens, next) {
            Err(e) => Err(e),
            Ok((datatype, after)) => if skip_token(tokens, after, TokenView::Comma) == after {
                Ok((acc.push((identifier, datatype)), after))
            } else {
                columns_definition_spec(tokens, after + 1, acc.push((identifier, datatype)))
            },
        },
    }
}

/// The column names of an `INSERT`, from behind the opening parenthesis to the closing
/// one: identifiers, each with an optional comma behind it.
pub open spec fn column_names_spec(tokens: Seq<TokenView>, index: int, acc: Seq<Seq<char>>)
    -> Step<Seq<Seq<char>>>
    decreases tokens.len() - index,
{
    if skip_token(tokens, index, TokenView::ParClose) != index {
        Ok((acc, index + 1))
    } else {
        match require_identifier_spec(tokens, index) {
            Err(e) => Err(e),
            Ok((identifier, next)) => column_names_spec(
                tokens,
                skip_token(tokens, next, TokenView::Comma),
                acc.push(identifier),
            ),
        }
    }
}

/// The condition of a query: behind `WHERE`, all the tokens that are left make up one
/// expression; without `WHERE` there is no condition.
pub open spec fn where_body_spec(tokens: Seq<TokenView>, index: int) -> Step<Option<NodeView>> {
    if skip_token(tokens, index, TokenView::Where) != index {
        match parse_tree_spec(tokens.subrange(index + 1, tokens.len() as int)) {
            Err(e) => Err(e),
            Ok(tree) => Ok((tree, tokens.len() as int)),
        }
    } else {
        Ok((None, index))
    }
}

/// A table name and an optional condition, as `DELETE` and the end of a `SELECT` have them.
pub open spec fn from_table_spec(tokens: Seq<TokenView>, index: int) -> Step<
    (Seq<char>, Option<NodeView>),
> {
    match require_token_spec(tokens, index, TokenView::From, "From"@) {
        Err(e) => Err(e),
        Ok((_, at_name)) => match require_identifier_spec(tokens, at_name) {
            Err(e) => Err(e),
            Ok((table_name, at_where)) => match where_body_spec(tokens, at_where) {
                Err(e) => Err(e),
                Ok((where_body, end)) => Ok(((table_name, where_body), end)),
            },
        },
    }
}

/// `SELECT <body> FROM <table> [WHERE <condition>]`, from behind `SELECT`.
pub open spec fn select_spec(tokens: Seq<TokenView>, index: int) -> Step<QueryView> {
    match body_spec(tokens, index, Seq::empty()) {
        Err(e) => Err(e),
        Ok((body, at_from)) => match from_table_spec(tokens, at_from) {
            Err(e) => Err(e),
            Ok(((table_name, where_body), end)) => Ok(
                (QueryView::Select { body, table_name, where_body }, end),
            ),
        },
    }
}

/// `DELETE FROM <table> [WHERE <condition>]`, from behind `DELETE`.
pub open spec fn delete_spec(tokens: Seq<TokenView>, index: int) -> Step<QueryView> {
    match from_table_spec(tokens, index) {
        Err(e) => Err(e),
        Ok(((table_name, where_body), end)) => Ok(
            (QueryView::Delete { table_name, where_body }, end),
        ),
    }
}

/// The values of an `INSERT`, from behind `VALUES`: a body, in parentheses or without.
pub open spec fn insert_values_spec(tokens: Seq<TokenView>, index: int) -> Step<Seq<TokenView>> {
    let parenthesised = skip_token(tokens, index, TokenView::ParOpen) != index;
    match body_spec(tokens, skip_token(tokens, index, TokenView::ParOpen), Seq::empty()) {
        Err(e) => Err(e),
        Ok((values, end)) => if !parenthesised {
            Ok((values, end))
        } else if values.len() > 0 && values.last() == TokenView::ParClose {
            Ok((values.drop_last(), end))
        } else {
            Err(ParseErrorView::UnexpectedToken("closing parenthesis"@, values.last()))
        },
    }
}

/// `INSERT INTO <table> [(<columns>)] VALUES <values>`, from behind `INSERT`. Where columns
/// are named, there are as many of them as values.
pub open spec fn insert_spec(tokens: Seq<TokenView>, index: int) -> Step<QueryView> {
    match require_token_spec(tokens, index, TokenView::Into, "Into"@) {
        Err(e) => Err(e),
        Ok((_, at_name)) => match require_identifier_spec(tokens, at_name) {
            Err(e) => Err(e),
            Ok((table_name, at_columns)) => {
                let named: Step<Seq<Seq<char>>> = if skip_token(
                    tokens,
                    at_columns,
                    TokenView::ParOpen,
                ) != at_columns {
                    column_names_spec(tokens, at_columns + 1, Seq::empty())
                } else {
                    Ok((Seq::empty(), at_columns))
                };
                match named {
                    Err(e) => Err(e),
                    Ok((columns, at_values)) => match require_token_spec(
                        tokens,
                        at_values,
                        TokenView::Values,
                        "Values"@,
                    ) {
                        Err(e) => Err(e),
                        Ok((_, at_body)) => match insert_values_spec(tokens, at_body) {
                            Err(e) => Err(e),
                            Ok((values, end)) => if columns.len() != 0 && columns.len()
                                != values.len() {
                                Err(ParseErrorView::InsertQueryValuesMismatch)
                            } else {
                                Ok((QueryView::Insert { values, columns, table_name }, end))
                            },
                        },
                    },
                }
            },
        },
    }
}

/// A column name, `ON` and a table name, as `CREATE INDEX` and `DROP INDEX` have them.
pub open spec fn index_target_spec(tokens: Seq<TokenView>, index: int) -> Step<
    (Seq<char>, Seq<char>),
> {
    match require_identifier_spec(tokens, index) {
        Err(e) => Err(e),
        Ok((column_name, at_on)) => match require_token_spec(
            tokens,
            at_on,
            TokenView::On,
            "On"@,
        ) {
            Err(e) => Err(e),
            Ok((_, at_table)) => match require_identifier_spec(tokens, at_table) {
                Err(e) => Err(e),
                Ok((table_name, end)) => Ok(((column_name, table_name), end)),
            },
        },
    }
}

/// `CREATE TABLE <table> [(] <definitions> [)]` or `CREATE INDEX <column> ON <table>`,
/// from behind `CREATE`.
pub open spec fn create_spec(tokens: Seq<TokenView>, index: int) -> Step<QueryView> {
    match require_table_or_index_spec(tokens, index) {
        Err(e) => Err(e),
        Ok((true, at_name)) => match require_identifier_spec(tokens, at_name) {
            Err(e) => Err(e),
            Ok((table_name, at_columns)) => {
                let start = skip_token(tokens, at_columns, TokenView::ParOpen);
                match columns_definition_spec(tokens, start, Seq::empty()) {
                    Err(e) => Err(e),
                    Ok((columns_definition, after)) => if start == at_columns {
                        Ok((QueryView::CreateTable { table_name, columns_definition }, after))
                    } else {
                        match require_token_spec(tokens, after, TokenView::ParClose, "ParClose"@) {
                            Err(e) => Err(e),
                            Ok((_, end)) => Ok(
                                (QueryView::CreateTable { table_name, columns_definition }, end),
                            ),
                        }
                    },
                }
            },
        },
        Ok((false, at_name)) => match index_target_spec(tokens, at_name) {
            Err(e) => Err(e),
            Ok(((column_name, table_name), end)) => Ok(
                (QueryView::CreateIndex { column_name, table_name }, end),
            ),
        },
    }
}

/// `DROP TABLE <table>` or `DROP INDEX <column> ON <table>`, from behind `DROP`.
pub open spec fn drop_spec(tokens: Seq<TokenView>, index: int) -> Step<QueryView> {
    match require_table_or_index_spec(tokens, index) {
        Err(e) => Err(e),
        Ok((true, at_name)) => match require_identifier_spec(tokens, at_name) {
            Err(e) => Err(e),
            Ok((table_name, end)) => Ok((QueryView::DropTable { table_name }, end)),
        },
        Ok((false, at_name)) => match index_target_spec(tokens, at_name) {
            Err(e) => Err(e),
            Ok(((column_name, table_name), end)) => Ok(
                (QueryView::DropIndex { column_name, table_name }, end),
            ),
        },
    }
}

/// Whether only an optional `;` is left at `index`.
pub open spec fn at_query_end(tokens: Seq<TokenView>, index: int) -> bool {
    skip_token(tokens, index, TokenView::Semicolon) >= tokens.len()
}

/// The query that a token stream states. The first token names the statement; behind the
/// statement only a `;` may follow.
pub open spec fn parse_query_spec(tokens: Seq<TokenView>) -> Result<QueryView, ParseErrorView> {
    if tokens.len() == 0 {
        Err(ParseErrorView::UnexpectedQueryEnding)
    } else {
        let statement: Step<QueryView> = match tokens[0] {
            TokenView::Select => select_spec(tokens, 1),
            TokenView::Insert => insert_spec(tokens, 1),
            TokenView::Delete => delete_spec(tokens, 1),
            TokenView::Create => create_spec(tokens, 1),
            TokenView::Drop => drop_spec(tokens, 1),
            _ => if at_query_end(tokens, 1) {
                Err(ParseErrorView::UnexpectedToken("SELECT/INSERT/DELETE"@, tokens[0]))
            } else {
                Err(ParseErrorView::UnexpectedQueryEnding)
            },
        };
        match statement {
            Err(e) => Err(e),
            Ok((query, end)) => if at_query_end(tokens, end) {
                Ok(query)
            } else {
                Err(ParseErrorView::UnexpectedQueryEnding)
            },
        }
    }
}

/// The query that a text states.
pub open spec fn parse_spec(input: Seq<char>, floats: spec_fn(Seq<char>) -> Option<u64>) -> Result<
    QueryView,
    ParseErrorView,
> {
    match lex_spec(input, floats) {
        Err(e) => Err(e),
        Ok(tokens) => parse_query_spec(tokens),
    }
}

/// The view of a parsed query or the error in its place.
pub open spec fn query_result_view(r: ParseResult<Query>) -> Result<QueryView, ParseErrorView> {
    match r {
        Ok(query) => Ok(query@),
        Err(e) => Err(e@),
    }
}

/// Parses the tokens of one query.
pub fn parse_tokens(tokens: Vec<LexerToken>) -> (r: ParseResult<Query>)
    ensures
        query_result_view(r) == parse_query_spec(tokens_view(tokens@)),
{
    let mut parser = QueryParser::from(tokens);
    parser.parse_query()
}

/// Parses the text of one query. `parse_float` reads a float literal and returns its bit
/// pattern.
pub fn parse<P: Fn(&str) -> Option<u64>>(query: &str, parse_float: &P) -> (r: ParseResult<Query>)
    requires
        float_reader_total(parse_float),
    ensures
        forall|floats: spec_fn(Seq<char>) -> Option<u64>| #[trigger]
            reads_floats_as(parse_float, floats) ==> query_result_view(r) == parse_spec(
                query@,
                floats,
            ),
        !lexing_needs_floats(query@) ==> query_result_view(r) == parse_spec(
            query@,
            no_float_texts(),
        ),
{
    let tokens = match lex(query, parse_float) {
        Ok(tokens) => tokens,
        Err(e) => {
            return Err(e);
        },
    };
    parse_tokens(tokens)
}

struct QueryParser {
    tokens: Vec<LexerToken>,
    index: usize,
}

impl QueryParser {
    spec fn stream(&self) -> Seq<TokenView> {
        tokens_view(self.tokens@)
    }

    spec fn wf(&self) -> bool {
        self.index <= self.tokens@.len()
    }

    spec fn unchanged(&self, before: &Self) -> bool {
        self.tokens == before.tokens && self.wf() && self.index >= before.index
    }

    fn from(tokens: Vec<LexerToken>) -> (r: Self)
        ensures
            r.tokens == tokens,
            r.index == 0,
    {
        QueryParser { tokens, index: 0 }
    }

    /// The token at the current position, which then moves on by one.
    fn next(&mut self) -> (r: Option<LexerToken>)
        requires
            old(self).wf(),
        ensures
            final(self).unchanged(old(self)),
            match r {
                Some(token) => old(self).index < old(self).tokens@.len() && token@
                    == old(self).stream()[old(self).index as int] && final(self).index
                    == old(self).index + 1,
                None => old(self).index == old(self).tokens@.len() && final(self).index
                    == old(self).index,
            },
    {
        if self.index < self.tokens.len() {
            let token = self.tokens[self.index].clone();
            self.index += 1;
            Some(token)
        } else {
            None
        }
    }

    /// Moves past `token` where it stands at the current position, and says whether it did.
    fn try_next(&mut self, token: LexerToken) -> (r: bool)
        requires
            old(self).wf(),
        ensures
            final(self).unchanged(old(self)),
            final(self).index == skip_token(old(self).stream(), old(self).index as int, token@),
            r == (final(self).index != old(self).index),
    {
        if self.index < self.tokens.len() {
            if self.tokens[self.index] == token {
                self.index += 1;
                return true;
            }
        }
        false
    }

    fn at_from_or_end(&self) -> (r: bool)
        requires
            self.wf(),
        ensures
            r == (self.index >= self.tokens@.len() || self.stream()[self.index as int]
                == TokenView::From),
    {
        if self.index < self.tokens.len() {
            match &self.tokens[self.index] {
                LexerToken::From => true,
                _ => false,
            }
        } else {
            true
        }
    }

    spec fn stepped<T, V>(&self, r: ParseResult<T>, view: spec_fn(T) -> V) -> Step<V> {
        match r {
            Ok(value) => Ok((view(value), self.index as int)),
            Err(e) => Err(e@),
        }
    }

    fn require_expression_body_token(&mut self) -> (r: ParseResult<LexerToken>)
        requires
            old(self).wf(),
        ensures
            final(self).unchanged(old(self)),
            final(self).stepped(r, |t: LexerToken| t@) == require_body_token_spec(
                old(self).stream(),
                old(self).index as int,
            ),
    {
        match self.next() {
            Some(token) => match token {
                LexerToken::Identifier(_)
                | LexerToken::FloatNumberLiteral(_)
                | LexerToken::BoolLiteral(_)
                | LexerToken::NumberLiteral(_)
                | LexerToken::StringLiteral(_)
                | LexerToken::Star
                | LexerToken::ParOpen
                | LexerToken::ParClose
                | LexerToken::Null => Ok(token),
                _ => Err(
                    ParseError::UnexpectedToken(String::from_str("expression body"), token),
                ),
            },
            None => Err(ParseError::UnexpectedQueryEnding),
        }
    }

    fn require_identifier(&mut self) -> (r: ParseResult<String>)
        requires
            old(self).wf(),
        ensures
            final(self).unchanged(old(self)),
            final(self).stepped(r, |s: String| s@) == require_identifier_spec(
                old(self).stream(),
                old(self).index as int,
            ),
    {
        match self.next() {
            Some(token) => match token {
                LexerToken::Identifier(id) => Ok(id),
                _ => Err(ParseError::UnexpectedToken(String::from_str("identifier"), token)),
            },
            None => Err(ParseError::UnexpectedQueryEnding),
        }
    }

    fn require_datatype(&mut self) -> (r: ParseResult<String>)
        requires
            old(self).wf(),
        ensures
            final(self).unchanged(old(self)),
            final(self).stepped(r, |s: String| s@) == require_datatype_spec(
                old(self).stream(),
                old(self).index as int,
            ),
    {
        match self.next() {
            Some(token) => match token {
                LexerToken::DataType(datatype) => Ok(datatype),
                _ => Err(ParseError::UnexpectedToken(String::from_str("data-type"), token)),
            },
            None => Err(ParseError::UnexpectedQueryEnding),
        }
    }

    /// Demands `required`; `name` is how the error names it.
    fn require_token(&mut self, required: LexerToken, name: &str) -> (r: ParseResult<()>)
        requires
            old(self).wf(),
        ensures
            final(self).unchanged(old(self)),
            final(self).stepped(r, |u: ()| ()) == require_token_spec(
                old(self).stream(),
                old(self).index as int,
                required@,
                name@,
            ),
    {
        match self.next() {
            Some(token) => {
                if token == required {
                    Ok(())
                } else {
                    Err(ParseError::UnexpectedToken(String::from_str(name), token))
                }
            },
            None => Err(ParseError::UnexpectedQueryEnding),
        }
    }

    /// Demands `TABLE` or `INDEX`, and says whether it was `TABLE`.
    fn require_table_or_index(&mut self) -> (r: ParseResult<bool>)
        requires
            old(self).wf(),
        ensures
            final(self).unchanged(old(self)),
            final(self).stepped(r, |b: bool| b) == require_table_or_index_spec(
                old(self).stream(),
                old(self).index as int,
            ),
    {
        match self.next() {
            Some(token) => match token {
                LexerToken::Table => Ok(true),
                LexerToken::Index => Ok(false),
                _ => Err(
                    ParseError::UnexpectedToken(
                        String::from_str("table name or identifier"),
                        token,
                    ),
                ),
            },
            None => Err(ParseError::UnexpectedQueryEnding),
        }
    }

    /// Moves past an optional `;` and says whether the tokens are used up.
    fn require_eof(&mut self) -> (r: bool)
        requires
            old(self).wf(),
        ensures
            final(self).unchanged(old(self)),
            r == at_query_end(old(self).stream(), old(self).index as int),
    {
        self.try_next(LexerToken::Semicolon);
        self.index >= self.tokens.len()
    }

    fn parse_query(&mut self) -> (r: ParseResult<Query>)
        requires
            old(self).index == 0,
        ensures
            query_result_view(r) == parse_query_spec(old(self).stream()),
    {
        let query_type = match self.next() {
            Some(token) => token,
            None => {
                return Err(ParseError::UnexpectedQueryEnding);
            },
        };
        let query = match query_type {
            LexerToken::Select => self.parse_select(),
            LexerToken::Insert => self.parse_insert(),
            LexerToken::Delete => self.parse_delete(),
            LexerToken::Create => self.parse_create(),
            LexerToken::Drop => self.parse_drop(),
            _ => {
                return if self.require_eof() {
                    Err(
                        ParseError::UnexpectedToken(
                            String::from_str("SELECT/INSERT/DELETE"),
                            query_type,
                        ),
                    )
                } else {
                    Err(ParseError::UnexpectedQueryEnding)
                };
            },
        };
        match query {
            Ok(query) => {
                if self.require_eof() {
                    Ok(query)
                } else {
                    Err(ParseError::UnexpectedQueryEnding)
                }
            },
            Err(e) => Err(e),
        }
    }

    fn parse_from_table(&mut self) -> (r: ParseResult<(String, Option<Node>)>)
        requires
            old(self).wf(),
        ensures
            final(self).unchanged(old(self)),
            final(self).stepped(r, |p: (String, Option<Node>)| (p.0@, tree_view(p.1)))
                == from_table_spec(old(self).stream(), old(self).index as int),
    {
        match self.require_token(LexerToken::From, "From") {
            Ok(_) => {},
            Err(e) => {
                return Err(e);
            },
        }
        let table_name = match self.require_identifier() {
            Ok(name) => name,
            Err(e) => {
                return Err(e);
            },
        };
        let where_body = match self.parse_where_body() {
            Ok(tree) => tree,
            Err(e) => {
                return Err(e);
            },
        };
        Ok((table_name, where_body))
    }

    fn parse_select(&mut self) -> (r: ParseResult<Query>)
        requires
            old(self).wf(),
        ensures
            final(self).unchanged(old(self)),
            final(self).stepped(r, |q: Query| q@) == select_spec(
                old(self).stream(),
                old(self).index as int,
            ),
    {
        let body = match self.parse_query_body() {
            Ok(body) => body,
            Err(e) => {
                return Err(e);
            },
        };
        match self.parse_from_table() {
            Ok((table_name, where_body)) => Ok(Query::Select { body, table_name, where_body }),
            Err(e) => Err(e),
        }
    }

    fn parse_delete(&mut self) -> (r: ParseResult<Query>)
        requires
            old(self).wf(),
        ensures
            final(self).unchanged(old(self)),
            final(self).stepped(r, |q: Query| q@) == delete_spec(
                old(self).stream(),
                old(self).index as int,
            ),
    {
        match self.parse_from_table() {
            Ok((table_name, where_body)) => Ok(Query::Delete { table_name, where_body }),
            Err(e) => Err(e),
        }
    }

    fn parse_column_names(&mut self) -> (r: ParseResult<Vec<String>>)
        requires
            old(self).wf(),
        ensures
            final(self).unchanged(old(self)),
            final(self).stepped(r, |c: Vec<String>| strings_view(c@)) == column_names_spec(
                old(self).stream(),
                old(self).index as int,
                Seq::empty(),
            ),
    {
        let mut columns: Vec<String> = Vec::new();
        assert(strings_view(columns@) =~= Seq::<Seq<char>>::empty());
        loop
            invariant
                self.unchanged(old(self)),
                column_names_spec(old(self).stream(), old(self).index as int, Seq::empty())
                    == column_names_spec(self.stream(), self.index as int, strings_view(columns@)),
            decreases self.tokens@.len() - self.index,
        {
            if self.try_next(LexerToken::ParClose) {
                return Ok(columns);
            }
            let name = match self.require_identifier() {
                Ok(name) => name,
                Err(e) => {
                    return Err(e);
                },
            };
            let ghost before = strings_view(columns@);
            columns.push(name);
            assert(strings_view(columns@) =~= before.push(name@));
            self.try_next(LexerToken::Comma);
        }
    }

    fn parse_insert_values(&mut self) -> (r: ParseResult<Vec<LexerToken>>)
        requires
            old(self).wf(),
        ensures
            final(self).unchanged(old(self)),
            final(self).stepped(r, |v: Vec<LexerToken>| tokens_view(v@)) == insert_values_spec(
                old(self).stream(),
                old(self).index as int,
            ),
    {
        let is_parenthesised = self.try_next(LexerToken::ParOpen);
        let mut values = match self.parse_query_body() {
            Ok(values) => values,
            Err(e) => {
                return Err(e);
            },
        };
        if is_parenthesised {
            let count = values.len();
            if count == 0 {
                return Err(
                    ParseError::UnexpectedToken(
                        String::from_str("closing parenthesis"),
                        LexerToken::Null,
                    ),
                );
            }
            let last_value = values[count - 1].clone();
            let ghost before = tokens_view(values@);
            match last_value {
                LexerToken::ParClose => {
                    values.pop();
                    assert(tokens_view(values@) =~= before.drop_last());
                },
                _ => {
                    return Err(
                        ParseError::UnexpectedToken(
                            String::from_str("closing parenthesis"),
                            last_value,
                        ),
                    );
                },
            }
        }
        Ok(values)
    }

    fn parse_insert(&mut self) -> (r: ParseResult<Query>)
        requires
            old(self).wf(),
        ensures
            final(self).unchanged(old(self)),
            final(self).stepped(r, |q: Query| q@) == insert_spec(
                old(self).stream(),
                old(self).index as int,
            ),
    {
        match self.require_token(LexerToken::Into, "Into") {
            Ok(_) => {},
            Err(e) => {
                return Err(e);
            },
        }
        let table_name = match self.require_identifier() {
            Ok(name) => name,
            Err(e) => {
                return Err(e);
            },
        };
        let columns = if self.try_next(LexerToken::ParOpen) {
            match self.parse_column_names() {
                Ok(columns) => columns,
                Err(e) => {
                    return Err(e);
                },
            }
        } else {
            let none: Vec<String> = Vec::new();
            assert(strings_view(none@) =~= Seq::<Seq<char>>::empty());
            none
        };
        match self.require_token(LexerToken::Values, "Values") {
            Ok(_) => {},
            Err(e) => {
                return Err(e);
            },
        }
        let values = match self.parse_insert_values() {
            Ok(values) => values,
            Err(e) => {
                return Err(e);
            },
        };
        if columns.len() != 0 && columns.len() != values.len() {
            return Err(ParseError::InsertQueryValuesMismatch);
        }
        Ok(Query::Insert { values, columns, table_name })
    }

    fn parse_index_target(&mut self) -> (r: ParseResult<(String, String)>)
        requires
            old(self).wf(),
        ensures
            final(self).unchanged(old(self)),
            final(self).stepped(r, |p: (String, String)| (p.0@, p.1@)) == index_target_spec(
                old(self).stream(),
                old(self).index as int,
            ),
    {
        let column_name = match self.require_identifier() {
            Ok(name) => name,
            Err(e) => {
                return Err(e);
            },
        };
        match self.require_token(LexerToken::On, "On") {
            Ok(_) => {},
            Err(e) => {
                return Err(e);
            },
        }
        match self.require_identifier() {
            Ok(table_name) => Ok((column_name, table_name)),
            Err(e) => Err(e),
        }
    }

    fn parse_create(&mut self) -> (r: ParseResult<Query>)
        requires
            old(self).wf(),
        ensures
            final(self).unchanged(old(self)),
            final(self).stepped(r, |q: Query| q@) == create_spec(
                old(self).stream(),
                old(self).index as int,
            ),
    {
        let is_table = match self.require_table_or_index() {
            Ok(is_table) => is_table,
            Err(e) => {
                return Err(e);
            },
        };
        if is_table {
            let table_name = match self.require_identifier() {
                Ok(name) => name,
                Err(e) => {
                    return Err(e);
                },
            };
            let is_parenthesised = self.try_next(LexerToken::ParOpen);
            let columns_definition = match self.parse_columns_definition() {
                Ok(definitions) => definitions,
                Err(e) => {
                    return Err(e);
                },
            };
            if is_parenthesised {
                match self.require_token(LexerToken::ParClose, "ParClose") {
                    Ok(_) => {},
                    Err(e) => {
                        return Err(e);
                    },
                }
            }
            Ok(Query::CreateTable { table_name, columns_definition })
        } else {
            match self.parse_index_target() {
                Ok((column_name, table_name)) => Ok(Query::CreateIndex { column_name, table_name }),
                Err(e) => Err(e),
            }
        }
    }

    fn parse_drop(&mut self) -> (r: ParseResult<Query>)
        requires
            old(self).wf(),
        ensures
            final(self).unchanged(old(self)),
            final(self).stepped(r, |q: Query| q@) == drop_spec(
                old(self).stream(),
                old(self).index as int,
            ),
    {
        let is_table = match self.require_table_or_index() {
            Ok(is_table) => is_table,
            Err(e) => {
                return Err(e);
            },
        };
        if is_table {
            match self.require_identifier() {
                Ok(table_name) => Ok(Query::DropTable { table_name }),
                Err(e) => Err(e),
            }
        } else {
            match self.parse_index_target() {
                Ok((column_name, table_name)) => Ok(Query::DropIndex { column_name, table_name }),
                Err(e) => Err(e),
            }
        }
    }

    fn parse_where_body(&mut self) -> (r: ParseResult<Option<Node>>)
        requires
            old(self).wf(),
        ensures
            final(self).unchanged(old(self)),
            final(self).stepped(r, |t: Option<Node>| tree_view(t)) == where_body_spec(
                old(self).stream(),
                old(self).index as int,
            ),
    {
        if !self.try_next(LexerToken::Where) {
            return Ok(None);
        }
        let mut where_body: Vec<LexerToken> = Vec::new();
        let ghost first = self.index as int;
        assert(tokens_view(where_body@) =~= self.stream().subrange(first, first));
        while self.index < self.tokens.len()
            invariant
                self.unchanged(old(self)),
                0 <= first <= self.index,
                tokens_view(where_body@) == self.stream().subrange(first, self.index as int),
            decreases self.tokens@.len() - self.index,
        {
            let ghost before = tokens_view(where_body@);
            let token = self.tokens[self.index].clone();
            where_body.push(token);
            self.index += 1;
            assert(tokens_view(where_body@) =~= before.push(token@));
            assert(tokens_view(where_body@) =~= self.stream().subrange(first, self.index as int));
        }
        parse_tree(where_body)
    }

    fn parse_query_body(&mut self) -> (r: ParseResult<Vec<LexerToken>>)
        requires
            old(self).wf(),
        ensures
            final(self).unchanged(old(self)),
            final(self).stepped(r, |v: Vec<LexerToken>| tokens_view(v@)) == body_spec(
                old(self).stream(),
                old(self).index as int,
                Seq::empty(),
            ),
            r matches Ok(v) ==> v@.len() > 0,
    {
        let mut body: Vec<LexerToken> = Vec::new();
        assert(tokens_view(body@) =~= Seq::<TokenView>::empty());
        loop
            invariant
                self.unchanged(old(self)),
                body_spec(old(self).stream(), old(self).index as int, Seq::empty()) == body_spec(
                    self.stream(),
                    self.index as int,
                    tokens_view(body@),
                ),
            decreases self.tokens@.len() - self.index,
        {
            let token = match self.require_expression_body_token() {
                Ok(token) => token,
                Err(e) => {
                    return Err(e);
                },
            };
            let ghost before = tokens_view(body@);
            body.push(token);
            assert(tokens_view(body@) =~= before.push(token@));
            self.try_next(LexerToken::Comma);
            if self.at_from_or_end() {
                return Ok(body);
            }
        }
    }

    fn parse_columns_definition(&mut self) -> (r: ParseResult<Vec<(String, String)>>)
        requires
            old(self).wf(),
        ensures
            final(self).unchanged(old(self)),
            final(self).stepped(r, |d: Vec<(String, String)>| definitions_view(d@))
                == columns_definition_spec(
                old(self).stream(),
                old(self).index as int,
                Seq::empty(),
            ),
    {
        let mut columns: Vec<(String, String)> = Vec::new();
        assert(definitions_view(columns@) =~= Seq::<(Seq<char>, Seq<char>)>::empty());
        loop
            invariant
                self.unchanged(old(self)),
                columns_definition_spec(old(self).stream(), old(self).index as int, Seq::empty())
                    == columns_definition_spec(
                    self.stream(),
                    self.index as int,
                    definitions_view(columns@),
                ),
            decreases self.tokens@.len() - self.index,
        {
            let identifier = match self.require_identifier() {
                Ok(identifier) => identifier,
                Err(e) => {
                    return Err(e);
                },
            };
            let datatype = match self.require_datatype() {
                Ok(datatype) => datatype,
                Err(e) => {
                    return Err(e);
                },
            };
            let ghost before = definitions_view(columns@);
            let ghost pair = (identifier@, datatype@);
            columns.push((identifier, datatype));
            assert(definitions_view(columns@) =~= before.push(pair));
            if !self.try_next(LexerToken::Comma) {
                return Ok(columns);
            }
        }
    }
}

} // verus!
