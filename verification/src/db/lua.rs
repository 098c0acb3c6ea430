//! A Lua script for the cache assembled from pieces of code and encoded
//! arguments.
use vstd::prelude::*;
use crate::text::{joined, str_views, join_strs};
use crate::digest::{sha1_hex, sha1_hex_digest};
use crate::dal::lua::byte_views;

verus! {

/// A script under assembly: its lines of code and the encoded values that
/// go with it.
pub struct LuaScript<'a> {
    statements: Vec<&'a str>,
    keys: Vec<String>,
    key_index: i32,
    argv: Vec<Vec<u8>>,
    arg_index: i32,
}

impl<'a> LuaScript<'a> {
    /// The lines so far.
    pub closed spec fn statements(&self) -> Seq<Seq<char>> {
        str_views(self.statements@)
    }

    /// The encoded values so far.
    pub closed spec fn args(&self) -> Seq<Seq<u8>> {
        byte_views(self.argv@)
    }

    /// The keys (none are ever added).
    pub closed spec fn keys(&self) -> Seq<String> {
        self.keys@
    }

    /// A script that declares the count and the reply, with no values.
    pub fn new() -> (s: LuaScript<'a>)
        ensures
            s.statements() == seq!["local total = 0"@, "local r = 0"@],
            s.args() == Seq::<Seq<u8>>::empty(),
            s.keys() == Seq::<String>::empty(),
    {
        let mut statements: Vec<&'a str> = Vec::new();
        statements.push("local total = 0");
        statements.push("local r = 0");
        let s = LuaScript { statements, keys: Vec::new(), key_index: 1, argv: Vec::new(), arg_index: 1 };
        assert(s.statements() =~= seq!["local total = 0"@, "local r = 0"@]);
        assert(s.args() =~= Seq::<Seq<u8>>::empty());
        s
    }

    /// Appends a line of code.
    pub fn append(&mut self, code: &'a str)
        ensures
            final(self).statements() == old(self).statements().push(code@),
            final(self).args() == old(self).args(),
            final(self).keys() == old(self).keys(),
    {
        self.statements.push(code);
        assert(self.statements() =~= old(self).statements().push(code@));
    }

    /// Appends the encoded pieces of one argument.
    pub fn arg(&mut self, pieces: Vec<Vec<u8>>)
        ensures
            final(self).args() == old(self).args() + byte_views(pieces@),
            final(self).statements() == old(self).statements(),
            final(self).keys() == old(self).keys(),
    {
        let mut i: usize = 0;
        while i < pieces.len()
            invariant
                i <= pieces.len(),
                self.args() == old(self).args() + byte_views(pieces@.take(i as int)),
                self.statements() == old(self).statements(),
                self.keys() == old(self).keys(),
            decreases pieces.len() - i,
        {
            let p = pieces[i].clone();
            assert(p@ =~= pieces@[i as int]@);
            let ghost before = self.args();
            self.argv.push(p);
            assert(self.args() =~= before.push(pieces@[i as int]@));
            assert(pieces@.take(i as int + 1) =~= pieces@.take(i as int).push(pieces@[i as int]));
            assert(byte_views(pieces@.take(i as int + 1)) =~= byte_views(pieces@.take(i as int)).push(
                pieces@[i as int]@,
            ));
            assert(self.args() =~= old(self).args() + byte_views(pieces@.take(i as int + 1)));
            i = i + 1;
        }
        assert(pieces@.take(pieces.len() as int) =~= pieces@);
    }

    /// The text of the script, its lines joined by line breaks, and the
    /// SHA-1 digest under which the cache knows it.
    pub fn compile(&self) -> (res: (String, String))
        ensures
            res.1@ == joined(self.statements(), "\n"@),
            res.0@ == sha1_hex(res.1@),
    {
        let code = join_strs(&self.statements, "\n");
        let hash = sha1_hex_digest(code.as_str());
        (hash, code)
    }

    /// The encoded values, for sending with the script.
    pub fn argv_list(&self) -> (r: &Vec<Vec<u8>>)
        ensures
            byte_views(r@) == self.args(),
    {
        &self.argv
    }
}

} // verus!
