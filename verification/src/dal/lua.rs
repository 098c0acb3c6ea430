//! A Lua script for the cache, built one command at a time.
//!
//! Every command refers to its keys as `KEYS[i]` and to its values as
//! `ARGV[j]`; the script collects the keys and the encoded values in the
//! order in which the commands ask for them, so that each reference points
//! at the entry that was pushed for it.  The script counts its successes in
//! the Lua variable `total`, which it returns.
use vstd::prelude::*;
use vstd::string::StringExecFns;
use vstd::string::StrSliceExecFns;
use vstd::utf8::encode_utf8;
use crate::text::{decimal, joined, views, lemma_joined_push, push_decimal, join_strings};
use crate::digest::{sha1_hex, sha1_hex_digest};

verus! {

/// `KEYS[i]`
pub open spec fn key_ref(i: nat) -> Seq<char> {
    "KEYS["@ + decimal(i) + "]"@
}

/// `ARGV[i]`
pub open spec fn arg_ref(i: nat) -> Seq<char> {
    "ARGV["@ + decimal(i) + "]"@
}

/// `ARGV[first]`, ..., `ARGV[first + n - 1]`
pub open spec fn arg_refs(first: nat, n: nat) -> Seq<Seq<char>> {
    Seq::new(n, |j: int| arg_ref((first + j) as nat))
}

/// `KEYS[first]`, ..., `KEYS[first + n - 1]`
pub open spec fn key_refs(first: nat, n: nat) -> Seq<Seq<char>> {
    Seq::new(n, |j: int| key_ref((first + j) as nat))
}

/// `KEYS[k], ARGV[a]` for the field and value pairs of a hash.
pub open spec fn pair_refs(first_key: nat, first_arg: nat, n: nat) -> Seq<Seq<char>> {
    Seq::new(n, |j: int| key_ref((first_key + j) as nat) + ", "@ + arg_ref((first_arg + j) as nat))
}

/// The two statements that open every script.
pub open spec fn prelude_statements() -> Seq<Seq<char>> {
    seq!["local total = 0"@, "local r = 0"@]
}

/// The statement of `sadd`: add the members to the set and count the new ones.
pub open spec fn sadd_statement(key: nat, first_arg: nat, n: nat) -> Seq<char> {
    "total = total + redis.call('SADD', "@ + key_ref(key) + ", "@ + joined(arg_refs(first_arg, n), ", "@)
        + ")\n"@
}

/// The statement of `hmset`: set the fields of the hash named inline.
pub open spec fn hmset_statement(hash: Seq<char>, first_key: nat, first_arg: nat, n: nat) -> Seq<
    char,
> {
    "r = redis.call('HMSET', '"@ + hash + "', "@ + joined(pair_refs(first_key, first_arg, n), ", "@)
        + ")\n"@
}

/// Counts a successful `HMSET`.
pub open spec fn hmset_count_statement() -> Seq<char> {
    "if r.ok == 'OK'\nthen\ntotal = total + 1\nend\n"@
}

/// The statement of `hset`: set one field of a hash.
pub open spec fn hset_statement(first_key: nat, arg: nat) -> Seq<char> {
    "r = redis.call('HSET', "@ + key_ref(first_key) + ", "@ + key_ref(first_key + 1) + ", "@
        + arg_ref(arg) + ")"@
}

/// Counts a newly created hash field.
pub open spec fn hset_count_statement() -> Seq<char> {
    "if r == 1\nthen\ntotal = total + 1\nend\n"@
}

/// The statement of `del`: delete the keys and count the deleted ones.
pub open spec fn del_statement(first_key: nat, n: nat) -> Seq<char> {
    "total = total + redis.call('DEL', "@ + joined(key_refs(first_key, n), ", "@) + ")\n"@
}

/// The statement of `srem`: remove the members from the set.
pub open spec fn srem_statement(key: nat, first_arg: nat, n: nat) -> Seq<char> {
    "redis.call('SREM', "@ + key_ref(key) + ", "@ + joined(arg_refs(first_arg, n), ", "@) + ")\n"@
}

/// The statement of `expire`: let the key expire after `seconds`.
pub open spec fn expire_statement(key: nat, seconds: nat) -> Seq<char> {
    "redis.call('EXPIRE', "@ + key_ref(key) + ", "@ + decimal(seconds) + ")\n"@
}

/// The text of a finished script: its statements, then the return of the
/// count, one per line.
pub open spec fn script_text(statements: Seq<Seq<char>>) -> Seq<char> {
    joined(statements.push("return total"@), "\n"@)
}

/// The encoded values of a list of byte strings.
pub open spec fn byte_views(list: Seq<Vec<u8>>) -> Seq<Seq<u8>> {
    list.map_values(|b: Vec<u8>| b@)
}

/// The UTF-8 encodings of a list of strings.
pub open spec fn utf8_views(list: Seq<String>) -> Seq<Seq<u8>> {
    list.map_values(|s: String| encode_utf8(s@))
}

/// The keys and values of a list of field and value pairs.
pub open spec fn pair_keys(list: Seq<(String, Vec<u8>)>) -> Seq<Seq<char>> {
    list.map_values(|p: (String, Vec<u8>)| p.0@)
}

pub open spec fn pair_values(list: Seq<(String, Vec<u8>)>) -> Seq<Seq<u8>> {
    list.map_values(|p: (String, Vec<u8>)| p.1@)
}

proof fn lemma_one_ref_lists(k: nat, a: nat)
    ensures
        joined(arg_refs(a, 1), ", "@) == arg_ref(a),
        joined(key_refs(k, 1), ", "@) == key_ref(k),
        joined(pair_refs(k, a, 1), ", "@) == key_ref(k) + ", "@ + arg_ref(a),
{
    assert(arg_refs(a, 1)[0] == arg_ref(a));
    assert(key_refs(k, 1)[0] == key_ref(k));
    assert(pair_refs(k, a, 1)[0] == key_ref(k) + ", "@ + arg_ref(a));
}

proof fn lemma_sadd_text(k: nat, a: nat)
    ensures
        sadd_statement(k, a, 1) == "total = total + redis.call('SADD', KEYS["@ + decimal(k) + "], ARGV["@
            + decimal(a) + "])\n"@,
{
    lemma_one_ref_lists(k, a);
    reveal_strlit("KEYS[");
    reveal_strlit("ARGV[");
    reveal_strlit("]");
    reveal_strlit(", ");
    reveal_strlit(")\n");
    reveal_strlit("], ARGV[");
    reveal_strlit("])\n");
    reveal_strlit("total = total + redis.call('SADD', ");
    reveal_strlit("total = total + redis.call('SADD', KEYS[");
    assert(sadd_statement(k, a, 1) =~= "total = total + redis.call('SADD', KEYS["@ + decimal(k) + "], ARGV["@
        + decimal(a) + "])\n"@);
}

proof fn lemma_hmset_text(h: Seq<char>, k: nat, a: nat)
    ensures
        hmset_statement(h, k, a, 1) == "r = redis.call('HMSET', '"@ + h + "', KEYS["@ + decimal(k)
            + "], ARGV["@ + decimal(a) + "])\n"@,
{
    lemma_one_ref_lists(k, a);
    reveal_strlit("KEYS[");
    reveal_strlit("ARGV[");
    reveal_strlit("]");
    reveal_strlit(", ");
    reveal_strlit(")\n");
    reveal_strlit("', ");
    reveal_strlit("', KEYS[");
    reveal_strlit("], ARGV[");
    reveal_strlit("])\n");
    reveal_strlit("r = redis.call('HMSET', '");
    assert(hmset_statement(h, k, a, 1) =~= "r = redis.call('HMSET', '"@ + h + "', KEYS["@ + decimal(k)
        + "], ARGV["@ + decimal(a) + "])\n"@);
}

proof fn lemma_hset_text(k: nat, a: nat)
    ensures
        hset_statement(k, a) == "r = redis.call('HSET', KEYS["@ + decimal(k) + "], KEYS["@ + decimal(k + 1)
            + "], ARGV["@ + decimal(a) + "])"@,
{
    reveal_strlit("KEYS[");
    reveal_strlit("ARGV[");
    reveal_strlit("]");
    reveal_strlit(", ");
    reveal_strlit(")");
    reveal_strlit("], KEYS[");
    reveal_strlit("], ARGV[");
    reveal_strlit("])");
    reveal_strlit("r = redis.call('HSET', ");
    reveal_strlit("r = redis.call('HSET', KEYS[");
    assert(hset_statement(k, a) =~= "r = redis.call('HSET', KEYS["@ + decimal(k) + "], KEYS["@ + decimal(
        k + 1,
    ) + "], ARGV["@ + decimal(a) + "])"@);
}

proof fn lemma_del_srem_text(k: nat, a: nat)
    ensures
        del_statement(k, 1) == "total = total + redis.call('DEL', KEYS["@ + decimal(k) + "])\n"@,
        srem_statement(k, a, 1) == "redis.call('SREM', KEYS["@ + decimal(k) + "], ARGV["@ + decimal(a)
            + "])\n"@,
{
    lemma_one_ref_lists(k, a);
    reveal_strlit("KEYS[");
    reveal_strlit("ARGV[");
    reveal_strlit("]");
    reveal_strlit(", ");
    reveal_strlit(")\n");
    reveal_strlit("], ARGV[");
    reveal_strlit("])\n");
    reveal_strlit("total = total + redis.call('DEL', ");
    reveal_strlit("total = total + redis.call('DEL', KEYS[");
    reveal_strlit("redis.call('SREM', ");
    reveal_strlit("redis.call('SREM', KEYS[");
    assert(del_statement(k, 1) =~= "total = total + redis.call('DEL', KEYS["@ + decimal(k) + "])\n"@);
    assert(srem_statement(k, a, 1) =~= "redis.call('SREM', KEYS["@ + decimal(k) + "], ARGV["@ + decimal(a)
        + "])\n"@);
}

proof fn lemma_expire_text(k: nat, seconds: nat)
    ensures
        expire_statement(k, seconds) == "redis.call('EXPIRE', KEYS["@ + decimal(k) + "], "@ + decimal(
            seconds,
        ) + ")\n"@,
{
    reveal_strlit("KEYS[");
    reveal_strlit("]");
    reveal_strlit(", ");
    reveal_strlit(")\n");
    reveal_strlit("], ");
    reveal_strlit("redis.call('EXPIRE', ");
    reveal_strlit("redis.call('EXPIRE', KEYS[");
    assert(expire_statement(k, seconds) =~= "redis.call('EXPIRE', KEYS["@ + decimal(k) + "], "@ + decimal(
        seconds,
    ) + ")\n"@);
}

proof fn lemma_empty_script_text()
    ensures
        script_text(prelude_statements()) == "local total = 0\nlocal r = 0\nreturn total"@,
{
    reveal_strlit("\n");
    reveal_strlit("local total = 0");
    reveal_strlit("local r = 0");
    reveal_strlit("return total");
    reveal_strlit("local total = 0\nlocal r = 0\nreturn total");
    let st = prelude_statements().push("return total"@);
    assert(st.drop_last().drop_last() =~= seq!["local total = 0"@]);
    assert(st.drop_last() =~= prelude_statements());
    assert(joined(st.drop_last().drop_last(), "\n"@) == "local total = 0"@);
    assert(joined(st.drop_last(), "\n"@) == "local total = 0"@ + "\n"@ + "local r = 0"@);
    assert(script_text(prelude_statements()) =~= "local total = 0\nlocal r = 0\nreturn total"@);
}

/// The text of each cache command on one key and one value (with `k` and
/// `a` the positions of the key and the value among the script's keys and
/// values), and of a script with no command.
pub proof fn lemma_command_texts(h: Seq<char>, k: nat, a: nat, seconds: nat)
    ensures
        sadd_statement(k, a, 1) == "total = total + redis.call('SADD', KEYS["@ + decimal(k) + "], ARGV["@
            + decimal(a) + "])\n"@,
        hmset_statement(h, k, a, 1) == "r = redis.call('HMSET', '"@ + h + "', KEYS["@ + decimal(k)
            + "], ARGV["@ + decimal(a) + "])\n"@,
        hmset_count_statement() == "if r.ok == 'OK'\nthen\ntotal = total + 1\nend\n"@,
        hset_statement(k, a) == "r = redis.call('HSET', KEYS["@ + decimal(k) + "], KEYS["@ + decimal(k + 1)
            + "], ARGV["@ + decimal(a) + "])"@,
        hset_count_statement() == "if r == 1\nthen\ntotal = total + 1\nend\n"@,
        del_statement(k, 1) == "total = total + redis.call('DEL', KEYS["@ + decimal(k) + "])\n"@,
        srem_statement(k, a, 1) == "redis.call('SREM', KEYS["@ + decimal(k) + "], ARGV["@ + decimal(a)
            + "])\n"@,
        expire_statement(k, seconds) == "redis.call('EXPIRE', KEYS["@ + decimal(k) + "], "@ + decimal(
            seconds,
        ) + ")\n"@,
        script_text(prelude_statements()) == "local total = 0\nlocal r = 0\nreturn total"@,
{
    lemma_sadd_text(k, a);
    lemma_hmset_text(h, k, a);
    lemma_hset_text(k, a);
    lemma_del_srem_text(k, a);
    lemma_expire_text(k, seconds);
    lemma_empty_script_text();
}

/// How the cache answered a request to run a script by its digest.
#[derive(Clone, Copy, Debug, PartialEq, Eq)]
pub enum EvalReply {
    /// The script ran and gave its value.
    Value,
    /// The cache does not know a script under that digest.
    NoScript,
    /// Any other failure.
    Failed,
}

/// What to do after a reply to running a script by its digest.
#[derive(Clone, Copy, Debug, PartialEq, Eq)]
pub enum EvalAction {
    /// Give the script's value.
    Return,
    /// Load the script's text into the cache, then run it by digest again.
    LoadThenRetry,
    /// Give the failure.
    ReturnError,
}

/// A script is run by its digest; when the cache does not know the digest
/// the text is loaded and the run is tried again; any other failure ends it.
pub fn next_eval_action(reply: EvalReply) -> (a: EvalAction)
    ensures
        reply is Value ==> a is Return,
        reply is NoScript ==> a is LoadThenRetry,
        reply is Failed ==> a is ReturnError,
{
    match reply {
        EvalReply::Value => EvalAction::Return,
        EvalReply::NoScript => EvalAction::LoadThenRetry,
        EvalReply::Failed => EvalAction::ReturnError,
    }
}

/// A cache script under construction.
///
/// Each value in `argv` is one encoded argument (the single byte string
/// that the cache client makes of a string or an integer).
pub struct LuaScript {
    statements: Vec<String>,
    keys: Vec<String>,
    key_index: i32,
    argv: Vec<Vec<u8>>,
    arg_index: i32,
}

/// `prefix`, the decimal rendering of `i` and `]`.
fn ref_string(prefix: &str, i: u64) -> (s: String)
    ensures
        s@ == prefix@ + decimal(i as nat) + "]"@,
{
    let mut s = String::from_str(prefix);
    push_decimal(&mut s, i);
    s.append("]");
    s
}

impl LuaScript {
    /// The statements so far, without the final return.
    pub closed spec fn statements(&self) -> Seq<Seq<char>> {
        views(self.statements@)
    }

    /// The keys, in the order of their `KEYS` index.
    pub closed spec fn keys(&self) -> Seq<Seq<char>> {
        views(self.keys@)
    }

    /// The encoded values, in the order of their `ARGV` index.
    pub closed spec fn args(&self) -> Seq<Seq<u8>> {
        byte_views(self.argv@)
    }

    /// The counters agree with the lists they count, and fit their type.
    pub closed spec fn wf(&self) -> bool {
        &&& self.key_index as int == self.keys@.len()
        &&& self.arg_index as int == self.argv@.len()
        &&& self.key_index >= 0
        &&& self.arg_index >= 0
    }

    /// An empty script: it declares the count and the reply of the last
    /// command, and has no keys or values yet.
    pub fn new() -> (s: LuaScript)
        ensures
            s.wf(),
            s.statements() == prelude_statements(),
            s.keys() == Seq::<Seq<char>>::empty(),
            s.args() == Seq::<Seq<u8>>::empty(),
    {
        let mut statements: Vec<String> = Vec::new();
        statements.push(String::from_str("local total = 0"));
        statements.push(String::from_str("local r = 0"));
        let s = LuaScript { statements, keys: Vec::new(), key_index: 0, argv: Vec::new(), arg_index: 0 };
        assert(s.statements() =~= prelude_statements());
        assert(s.keys() =~= Seq::<Seq<char>>::empty());
        assert(s.args() =~= Seq::<Seq<u8>>::empty());
        s
    }

    /// Appends one encoded value; it becomes `ARGV[arg_index]`.
    fn push_arg(&mut self, arg: Vec<u8>)
        requires
            old(self).wf(),
            old(self).arg_index < i32::MAX,
        ensures
            final(self).wf(),
            final(self).args() == old(self).args().push(arg@),
            final(self).arg_index == old(self).arg_index + 1,
            final(self).keys() == old(self).keys(),
            final(self).key_index == old(self).key_index,
            final(self).statements() == old(self).statements(),
    {
        self.argv.push(arg);
        self.arg_index = self.arg_index + 1;
        assert(self.args() =~= old(self).args().push(arg@));
    }

    /// Appends one key; it becomes `KEYS[key_index]`.
    fn push_key(&mut self, key: String)
        requires
            old(self).wf(),
            old(self).key_index < i32::MAX,
        ensures
            final(self).wf(),
            final(self).keys() == old(self).keys().push(key@),
            final(self).key_index == old(self).key_index + 1,
            final(self).args() == old(self).args(),
            final(self).arg_index == old(self).arg_index,
            final(self).statements() == old(self).statements(),
    {
        self.keys.push(key);
        self.key_index = self.key_index + 1;
        assert(self.keys() =~= old(self).keys().push(key@));
    }

    fn push_statement(&mut self, code: String)
        ensures
            final(self).statements() == old(self).statements().push(code@),
            final(self).keys@ == old(self).keys@,
            final(self).argv@ == old(self).argv@,
            final(self).key_index == old(self).key_index,
            final(self).arg_index == old(self).arg_index,
    {
        self.statements.push(code);
        assert(self.statements() =~= old(self).statements().push(code@));
    }

    /// Adds the members to the set under `key` and adds the number of new
    /// members to the count.
    pub fn sadd(&mut self, key: String, member: Vec<Vec<u8>>)
        requires
            old(self).wf(),
            old(self).args().len() + member@.len() <= i32::MAX,
            old(self).keys().len() < i32::MAX,
        ensures
            final(self).wf(),
            final(self).args() == old(self).args() + byte_views(member@),
            final(self).keys() == old(self).keys().push(key@),
            final(self).statements() == old(self).statements().push(
                sadd_statement(
                    (old(self).keys().len() + 1) as nat,
                    (old(self).args().len() + 1) as nat,
                    member@.len(),
                ),
            ),
    {
        let ghost a0 = self.args().len();
        let mut list = String::new();
        let mut i: usize = 0;
        while i < member.len()
            invariant
                self.wf(),
                i <= member.len(),
                a0 == old(self).args().len(),
                a0 + member@.len() <= i32::MAX,
                self.args() == old(self).args() + byte_views(member@.take(i as int)),
                self.args().len() == a0 + i,
                self.keys() == old(self).keys(),
                self.statements() == old(self).statements(),
                list@ == joined(arg_refs((a0 + 1) as nat, i as nat), ", "@),
            decreases member.len() - i,
        {
            let m = member[i].clone();
            assert(m@ =~= member@[i as int]@);
            self.push_arg(m);
            proof {
                lemma_joined_push(arg_refs((a0 + 1) as nat, i as nat), arg_ref((a0 + 1 + i) as nat), ", "@);
                assert(arg_refs((a0 + 1) as nat, (i + 1) as nat) =~= arg_refs((a0 + 1) as nat, i as nat).push(
                    arg_ref((a0 + 1 + i) as nat),
                ));
                assert(byte_views(member@.take(i as int + 1)) =~= byte_views(member@.take(i as int)).push(
                    member@[i as int]@,
                ));
            }
            if i > 0 {
                list.append(", ");
            }
            list.append(ref_string("ARGV[", self.arg_index as u64).as_str());
            i = i + 1;
        }
        assert(member@.take(member.len() as int) =~= member@);
        self.push_key(key);
        let mut code = String::from_str("total = total + redis.call('SADD', ");
        code.append(ref_string("KEYS[", self.key_index as u64).as_str());
        code.append(", ");
        code.append(list.as_str());
        code.append(")\n");
        self.push_statement(code);
    }

    /// Sets the given fields of the hash under `hash`, and adds one to the
    /// count when the cache answers `OK`.  The hash is named in the text of
    /// the script; each field becomes a key and each value an argument.
    pub fn hmset(&mut self, hash: String, fv: Vec<(String, Vec<u8>)>)
        requires
            old(self).wf(),
            old(self).args().len() + fv@.len() <= i32::MAX,
            old(self).keys().len() + fv@.len() <= i32::MAX,
        ensures
            final(self).wf(),
            final(self).keys() == old(self).keys() + pair_keys(fv@),
            final(self).args() == old(self).args() + pair_values(fv@),
            final(self).statements() == old(self).statements().push(
                hmset_statement(
                    hash@,
                    (old(self).keys().len() + 1) as nat,
                    (old(self).args().len() + 1) as nat,
                    fv@.len(),
                ),
            ).push(hmset_count_statement()),
    {
        let ghost k0 = self.keys().len();
        let ghost a0 = self.args().len();
        let mut list = String::new();
        let mut i: usize = 0;
        while i < fv.len()
            invariant
                self.wf(),
                i <= fv.len(),
                k0 == old(self).keys().len(),
                a0 == old(self).args().len(),
                a0 + fv@.len() <= i32::MAX,
                k0 + fv@.len() <= i32::MAX,
                self.args() == old(self).args() + pair_values(fv@.take(i as int)),
                self.keys() == old(self).keys() + pair_keys(fv@.take(i as int)),
                self.keys().len() == k0 + i,
                self.args().len() == a0 + i,
                self.statements() == old(self).statements(),
                list@ == joined(pair_refs((k0 + 1) as nat, (a0 + 1) as nat, i as nat), ", "@),
            decreases fv.len() - i,
        {
            let field = fv[i].0.clone();
            let value = fv[i].1.clone();
            assert(value@ =~= fv@[i as int].1@);
            self.push_key(field);
            self.push_arg(value);
            proof {
                let item = key_ref((k0 + 1 + i) as nat) + ", "@ + arg_ref((a0 + 1 + i) as nat);
                lemma_joined_push(pair_refs((k0 + 1) as nat, (a0 + 1) as nat, i as nat), item, ", "@);
                assert(pair_refs((k0 + 1) as nat, (a0 + 1) as nat, (i + 1) as nat) =~= pair_refs(
                    (k0 + 1) as nat,
                    (a0 + 1) as nat,
                    i as nat,
                ).push(item));
                assert(pair_values(fv@.take(i as int + 1)) =~= pair_values(fv@.take(i as int)).push(
                    fv@[i as int].1@,
                ));
                assert(pair_keys(fv@.take(i as int + 1)) =~= pair_keys(fv@.take(i as int)).push(
                    fv@[i as int].0@,
                ));
            }
            if i > 0 {
                list.append(", ");
            }
            let mut item = ref_string("KEYS[", self.key_index as u64);
            item.append(", ");
            item.append(ref_string("ARGV[", self.arg_index as u64).as_str());
            list.append(item.as_str());
            i = i + 1;
        }
        assert(fv@.take(fv.len() as int) =~= fv@);
        let mut code = String::from_str("r = redis.call('HMSET', '");
        code.append(hash.as_str());
        code.append("', ");
        code.append(list.as_str());
        code.append(")\n");
        self.push_statement(code);
        self.push_statement(String::from_str("if r.ok == 'OK'\nthen\ntotal = total + 1\nend\n"));
    }

    /// Sets one field of the hash under `hash`, and adds one to the count
    /// when the field is new.  The hash and the field become two keys, the
    /// value an argument.
    pub fn hset(&mut self, hash: String, field: String, value: Vec<u8>)
        requires
            old(self).wf(),
            old(self).args().len() < i32::MAX,
            old(self).keys().len() + 2 <= i32::MAX,
        ensures
            final(self).wf(),
            final(self).keys() == old(self).keys().push(hash@).push(field@),
            final(self).args() == old(self).args().push(value@),
            final(self).statements() == old(self).statements().push(
                hset_statement((old(self).keys().len() + 1) as nat, (old(self).args().len() + 1) as nat),
            ).push(hset_count_statement()),
    {
        let mut code = String::from_str("r = redis.call('HSET', ");
        code.append(ref_string("KEYS[", (self.key_index + 1) as u64).as_str());
        code.append(", ");
        code.append(ref_string("KEYS[", (self.key_index + 2) as u64).as_str());
        code.append(", ");
        code.append(ref_string("ARGV[", (self.arg_index + 1) as u64).as_str());
        code.append(")");
        self.push_key(hash);
        self.push_key(field);
        self.push_arg(value);
        self.push_statement(code);
        self.push_statement(String::from_str("if r == 1\nthen\ntotal = total + 1\nend\n"));
    }

    /// Deletes the given keys and adds the number of deleted keys to the count.
    pub fn del(&mut self, keys: Vec<String>)
        requires
            old(self).wf(),
            old(self).keys().len() + keys@.len() <= i32::MAX,
        ensures
            final(self).wf(),
            final(self).keys() == old(self).keys() + views(keys@),
            final(self).args() == old(self).args(),
            final(self).statements() == old(self).statements().push(
                del_statement((old(self).keys().len() + 1) as nat, keys@.len()),
            ),
    {
        let ghost k0 = self.keys().len();
        let mut list = String::new();
        let mut i: usize = 0;
        while i < keys.len()
            invariant
                self.wf(),
                i <= keys.len(),
                k0 == old(self).keys().len(),
                k0 + keys@.len() <= i32::MAX,
                self.args() == old(self).args(),
                self.keys() == old(self).keys() + views(keys@.take(i as int)),
                self.keys().len() == k0 + i,
                self.statements() == old(self).statements(),
                list@ == joined(key_refs((k0 + 1) as nat, i as nat), ", "@),
            decreases keys.len() - i,
        {
            let k = keys[i].clone();
            self.push_key(k);
            proof {
                lemma_joined_push(key_refs((k0 + 1) as nat, i as nat), key_ref((k0 + 1 + i) as nat), ", "@);
                assert(key_refs((k0 + 1) as nat, (i + 1) as nat) =~= key_refs((k0 + 1) as nat, i as nat).push(
                    key_ref((k0 + 1 + i) as nat),
                ));
                assert(views(keys@.take(i as int + 1)) =~= views(keys@.take(i as int)).push(
                    keys@[i as int]@,
                ));
            }
            if i > 0 {
                list.append(", ");
            }
            list.append(ref_string("KEYS[", self.key_index as u64).as_str());
            i = i + 1;
        }
        assert(keys@.take(keys.len() as int) =~= keys@);
        let mut code = String::from_str("total = total + redis.call('DEL', ");
        code.append(list.as_str());
        code.append(")\n");
        self.push_statement(code);
    }

    /// Removes the members from the set under `key`.  Each member is passed
    /// as its UTF-8 bytes.
    pub fn srem(&mut self, key: String, member: Vec<String>)
        requires
            old(self).wf(),
            old(self).args().len() + member@.len() <= i32::MAX,
            old(self).keys().len() < i32::MAX,
        ensures
            final(self).wf(),
            final(self).args() == old(self).args() + utf8_views(member@),
            final(self).keys() == old(self).keys().push(key@),
            final(self).statements() == old(self).statements().push(
                srem_statement(
                    (old(self).keys().len() + 1) as nat,
                    (old(self).args().len() + 1) as nat,
                    member@.len(),
                ),
            ),
    {
        let ghost a0 = self.args().len();
        let mut list = String::new();
        let mut i: usize = 0;
        while i < member.len()
            invariant
                self.wf(),
                i <= member.len(),
                a0 == old(self).args().len(),
                a0 + member@.len() <= i32::MAX,
                self.args() == old(self).args() + utf8_views(member@.take(i as int)),
                self.args().len() == a0 + i,
                self.keys() == old(self).keys(),
                self.statements() == old(self).statements(),
                list@ == joined(arg_refs((a0 + 1) as nat, i as nat), ", "@),
            decreases member.len() - i,
        {
            let m = member[i].as_str().as_bytes_vec();
            self.push_arg(m);
            proof {
                lemma_joined_push(arg_refs((a0 + 1) as nat, i as nat), arg_ref((a0 + 1 + i) as nat), ", "@);
                assert(arg_refs((a0 + 1) as nat, (i + 1) as nat) =~= arg_refs((a0 + 1) as nat, i as nat).push(
                    arg_ref((a0 + 1 + i) as nat),
                ));
                assert(utf8_views(member@.take(i as int + 1)) =~= utf8_views(member@.take(i as int)).push(
                    encode_utf8(member@[i as int]@),
                ));
            }
            if i > 0 {
                list.append(", ");
            }
            list.append(ref_string("ARGV[", self.arg_index as u64).as_str());
            i = i + 1;
        }
        assert(member@.take(member.len() as int) =~= member@);
        self.push_key(key);
        let mut code = String::from_str("redis.call('SREM', ");
        code.append(ref_string("KEYS[", self.key_index as u64).as_str());
        code.append(", ");
        code.append(list.as_str());
        code.append(")\n");
        self.push_statement(code);
    }

    /// Lets the key expire after the given number of seconds.
    pub fn expire(&mut self, key: String, seconds: u64)
        requires
            old(self).wf(),
            old(self).keys().len() < i32::MAX,
        ensures
            final(self).wf(),
            final(self).keys() == old(self).keys().push(key@),
            final(self).args() == old(self).args(),
            final(self).statements() == old(self).statements().push(
                expire_statement((old(self).keys().len() + 1) as nat, seconds as nat),
            ),
    {
        self.push_key(key);
        let mut code = String::from_str("redis.call('EXPIRE', ");
        code.append(ref_string("KEYS[", self.key_index as u64).as_str());
        code.append(", ");
        push_decimal(&mut code, seconds);
        code.append(")\n");
        self.push_statement(code);
    }

    /// Finishes the script with the return of the count, and gives its
    /// text together with the SHA-1 digest under which the cache knows it.
    /// The keys and values to send with it are `keys_list` and `argv_list`.
    pub fn compile(&mut self) -> (res: (String, String))
        requires
            old(self).wf(),
        ensures
            final(self).wf(),
            final(self).keys() == old(self).keys(),
            final(self).args() == old(self).args(),
            final(self).statements() == old(self).statements().push("return total"@),
            res.1@ == script_text(old(self).statements()),
            res.0@ == sha1_hex(res.1@),
    {
        self.push_statement(String::from_str("return total"));
        let code = join_strings(&self.statements, "\n");
        assert(views(self.statements@) == old(self).statements().push("return total"@));
        let hash = sha1_hex_digest(code.as_str());
        (hash, code)
    }

    /// The keys, for sending with the script.
    pub fn keys_list(&self) -> (r: &Vec<String>)
        ensures
            views(r@) == self.keys(),
    {
        &self.keys
    }

    /// The encoded values, for sending with the script.
    pub fn argv_list(&self) -> (r: &Vec<Vec<u8>>)
        ensures
            byte_views(r@) == self.args(),
    {
        &self.argv
    }
}

} // verus!
