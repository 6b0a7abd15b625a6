//! The argument vector of one invocation: a program and its arguments.

use crate::text::{joined, lemma_joined_push, text_of, texts};
use vstd::prelude::*;
use vstd::std_specs::convert::FromSpecImpl;
use vstd::string::StringExecFns;

verus! {

/// What an optional argument adds to an argument vector: itself, or nothing.
pub open spec fn arg_of(arg: Option<Seq<char>>) -> Seq<Seq<char>> {
    match arg {
        Some(x) => seq![x],
        None => Seq::empty(),
    }
}

/// What a key with an optional value adds to an argument vector: the key and
/// the value, or nothing.
pub open spec fn pair_of(key: Seq<char>, value: Option<Seq<char>>) -> Seq<Seq<char>> {
    match value {
        Some(x) => seq![key, x],
        None => Seq::empty(),
    }
}

/// An argument vector: the program's name first, then its arguments in their
/// order.
#[derive(Debug, PartialEq, Clone)]
pub struct Cmd {
    program: String,
    args: Vec<String>,
}

impl View for Cmd {
    type V = Seq<Seq<char>>;

    closed spec fn view(&self) -> Seq<Seq<char>> {
        seq![self.program@] + texts(self.args@)
    }
}

impl Cmd {
    /// The argument vector of `program` without arguments.
    pub fn new(program: &str) -> (c: Cmd)
        ensures
            c@ == seq![program@],
    {
        let c = Cmd { program: String::from_str(program), args: Vec::new() };
        assert(c@ =~= seq![program@]);
        c
    }

    /// Adds the argument `arg`, if there is one.
    pub fn arg(&mut self, arg: Option<&str>)
        ensures
            final(self)@ == old(self)@ + arg_of(text_of(arg)),
    {
        if let Some(x) = arg {
            self.args.push(String::from_str(x));
            assert(self@ =~= old(self)@ + arg_of(text_of(arg)));
        } else {
            assert(self@ =~= old(self)@ + arg_of(text_of(arg)));
        }
    }

    /// Adds `key` and then `value`, if there is a value; else nothing.
    pub fn pair(&mut self, key: &str, value: Option<&str>)
        ensures
            final(self)@ == old(self)@ + pair_of(key@, text_of(value)),
    {
        if let Some(x) = value {
            self.args.push(String::from_str(key));
            self.args.push(String::from_str(x));
            assert(self@ =~= old(self)@ + pair_of(key@, text_of(value)));
        } else {
            assert(self@ =~= old(self)@ + pair_of(key@, text_of(value)));
        }
    }

    /// The program's name.
    pub fn program(&self) -> (r: &str)
        ensures
            self@.len() > 0,
            r@ == self@.first(),
    {
        self.program.as_str()
    }

    /// The arguments, without the program's name.
    pub fn args(&self) -> (r: &Vec<String>)
        ensures
            self@.len() > 0,
            texts(r@) == self@.drop_first(),
    {
        assert(texts(self.args@) =~= self@.drop_first());
        &self.args
    }

    /// The whole argument vector, the program's name first.
    pub fn into_vec(self) -> (r: Vec<String>)
        ensures
            texts(r@) == self@,
    {
        let mut r: Vec<String> = Vec::new();
        r.push(self.program);
        let mut args = self.args;
        r.append(&mut args);
        assert(texts(r@) =~= self@);
        r
    }
}

impl From<Cmd> for String {
    /// The statement that the argument vector spells: its elements with one
    /// space between every two of them.
    fn from(from: Cmd) -> (s: String)
        ensures
            s@ == joined(from@, seq![' ']),
    {
        proof {
            reveal_strlit(" ");
        }
        let mut s = from.program.clone();
        let mut i: usize = 0;
        assert(from@.take(1) =~= seq![from.program@]);
        while i < from.args.len()
            invariant
                i <= from.args@.len(),
                " "@ == seq![' '],
                s@ == joined(from@.take(i + 1), seq![' ']),
            decreases from.args@.len() - i,
        {
            proof {
                lemma_joined_push(from@.take(i + 1), from.args@[i as int]@, seq![' ']);
                assert(from@.take(i + 1).push(from.args@[i as int]@) =~= from@.take(i + 2));
            }
            s.append(" ");
            s.append(from.args[i].as_str());
            i += 1;
        }
        assert(from@.take(i + 1) =~= from@);
        s
    }
}

/// Ghost code cannot write down a `String` from its characters, so the
/// conversion is stated by the `ensures` of `from`, over the string's view.
impl FromSpecImpl<Cmd> for String {
    open spec fn obeys_from_spec() -> bool {
        false
    }

    open spec fn from_spec(v: Cmd) -> String {
        arbitrary()
    }
}

} // verus!
