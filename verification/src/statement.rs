//! Statements for the database: their text, and what is bound to it.

use vstd::prelude::*;
use crate::text::{characters, nat_string, nat_text, option_text};

verus! {

/// A value bound to a statement.
#[derive(Debug)]
pub enum Param {
    Text(String),
    OptionalText(Option<String>),
    Int(i64),
}

/// A bound value, with texts by their characters.
pub ghost enum ParamView {
    Text(Seq<char>),
    OptionalText(Option<Seq<char>>),
    Int(i64),
}

impl View for Param {
    type V = ParamView;

    open spec fn view(&self) -> ParamView {
        match self {
            Param::Text(s) => ParamView::Text(s@),
            Param::OptionalText(s) => ParamView::OptionalText(option_text(*s)),
            Param::Int(i) => ParamView::Int(*i),
        }
    }
}

/// A statement, with `?` for each value that is bound to it in turn.
#[derive(Debug)]
pub struct Statement {
    pub sql: String,
    pub params: Vec<Param>,
}

/// A statement by its text and the bound values.
#[verifier::ext_equal]
pub ghost struct StatementView {
    pub sql: Seq<char>,
    pub params: Seq<ParamView>,
}

impl View for Statement {
    type V = StatementView;

    open spec fn view(&self) -> StatementView {
        StatementView { sql: self.sql@, params: self.params@.map_values(|p: Param| p@) }
    }
}

impl Statement {
    /// A statement without values yet.
    pub fn new(sql: &str) -> (r: Statement)
        ensures
            r@ == (StatementView { sql: sql@, params: Seq::empty() }),
    {
        let r = Statement { sql: sql.to_owned(), params: Vec::new() };
        assert(r.params@.map_values(|p: Param| p@) =~= Seq::<ParamView>::empty());
        r
    }

    /// Binds a value behind those that are bound already.
    pub fn bind(self, param: Param) -> (r: Statement)
        ensures
            r@.sql == self@.sql,
            r@.params == self@.params.push(param@),
    {
        let mut s = self;
        let ghost before = s.params@;
        s.params.push(param);
        assert(s.params@.map_values(|p: Param| p@) =~= before.map_values(|p: Param| p@).push(param@));
        s
    }

    /// Binds a text.
    pub fn text(self, value: &str) -> (r: Statement)
        ensures
            r@.sql == self@.sql,
            r@.params == self@.params.push(ParamView::Text(value@)),
    {
        self.bind(Param::Text(value.to_owned()))
    }

    /// Binds a text that may be missing.
    pub fn optional(self, value: &Option<String>) -> (r: Statement)
        ensures
            r@.sql == self@.sql,
            r@.params == self@.params.push(ParamView::OptionalText(option_text(*value))),
    {
        self.bind(Param::OptionalText(value.clone()))
    }

    /// Binds an integer.
    pub fn integer(self, value: i64) -> (r: Statement)
        ensures
            r@.sql == self@.sql,
            r@.params == self@.params.push(ParamView::Int(value)),
    {
        self.bind(Param::Int(value))
    }
}

/// How many question marks a text holds.
pub open spec fn marks(s: Seq<char>) -> nat
    decreases s.len(),
{
    if s.len() == 0 {
        0
    } else {
        marks(s.drop_last()) + if s.last() == '?' {
            1nat
        } else {
            0nat
        }
    }
}

/// A text with its question marks numbered: the first by `$1`, the second by `$2`, and so on.
pub open spec fn numbered(s: Seq<char>) -> Seq<char>
    decreases s.len(),
{
    if s.len() == 0 {
        Seq::empty()
    } else if s.last() == '?' {
        numbered(s.drop_last()) + ("$"@ + nat_text(marks(s)))
    } else {
        numbered(s.drop_last()).push(s.last())
    }
}

impl Statement {
    /// The text for a database that numbers its values, as PostgreSQL does.
    pub fn numbered_sql(&self) -> (r: String)
        ensures
            r@ == numbered(self@.sql),
    {
        let text = self.sql.as_str();
        let chars = characters(text);
        let mut out = String::new();
        let mut count: u64 = 0;
        let mut i: usize = 0;
        assert(text@.take(0) =~= Seq::<char>::empty());
        while i < chars.len()
            invariant
                i <= chars.len(),
                chars@ == text@,
                text@ == self@.sql,
                count == marks(text@.take(i as int)),
                count <= i,
                out@ == numbered(text@.take(i as int)),
            decreases chars.len() - i,
        {
            let ghost next = text@.take(i + 1);
            assert(next.drop_last() =~= text@.take(i as int));
            assert(next.last() == text@[i as int]);
            let ghost before = out@;
            if chars[i] == '?' {
                count = count + 1;
                out.append("$");
                let n = nat_string(count);
                out.append(n.as_str());
                assert(out@ =~= before + ("$"@ + nat_text(count as nat)));
            } else {
                let one = text.substring_char(i, i + 1);
                out.append(one);
                assert(out@ =~= before.push(text@[i as int]));
            }
            i = i + 1;
        }
        assert(text@.take(text@.len() as int) =~= text@);
        out
    }
}

/// The question marks of a text are numbered from one, in turn, and everything else stays: what stands
/// behind a text does not change its numbering, and each further mark gets the next number.
pub proof fn law_marks_are_numbered_in_turn(s: Seq<char>, c: char)
    ensures
        numbered(Seq::empty()) == Seq::<char>::empty(),
        marks(Seq::empty()) == 0,
        c != '?' ==> numbered(s.push(c)) == numbered(s).push(c) && marks(s.push(c)) == marks(s),
        numbered(s.push('?')) == numbered(s) + ("$"@ + nat_text(marks(s) + 1)),
        marks(s.push('?')) == marks(s) + 1,
{
    assert(s.push(c).drop_last() =~= s);
    assert(s.push('?').drop_last() =~= s);
}

} // verus!
