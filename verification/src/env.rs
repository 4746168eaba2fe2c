//! A snapshot of the process environment, read once at the edge of the program.
use vstd::prelude::*;
use crate::text::{
    str_eq, chars_of, trim_bounds, find_char, range_to_string, split_on, trim,
    lemma_split_on_append, lemma_split_on_free, has_char, parse_unsigned, parse_u32, parse_u64,
    parse_usize,
};

verus! {

/// Environment variables, in the order they were read.
pub struct EnvVars {
    pub vars: Vec<(String, String)>,
}

/// The value of the first variable named `key`.
pub open spec fn env_lookup(vars: Seq<(String, String)>, key: Seq<char>) -> Option<Seq<char>>
    decreases vars.len(),
{
    if vars.len() == 0 {
        None
    } else if vars[0].0@ == key {
        Some(vars[0].1@)
    } else {
        env_lookup(vars.drop_first(), key)
    }
}

/// A variable's value is that of its first entry, and a variable with no entry has none.
pub proof fn lemma_env_lookup(vars: Seq<(String, String)>, key: Seq<char>, i: int)
    ensures
        0 <= i < vars.len() && vars[i].0@ == key && (forall|j: int|
            0 <= j < i ==> (#[trigger] vars[j]).0@ != key) ==> env_lookup(vars, key) == Some(
            vars[i].1@,
        ),
        (forall|j: int| 0 <= j < vars.len() ==> (#[trigger] vars[j]).0@ != key) ==> env_lookup(
            vars,
            key,
        ) is None,
    decreases vars.len(),
{
    if vars.len() > 0 {
        let t = vars.drop_first();
        assert forall|j: int| 0 <= j < t.len() implies #[trigger] t[j] == vars[j + 1] by {}
        lemma_env_lookup(t, key, i - 1);
        if 0 < i < vars.len() && vars[i].0@ == key && (forall|j: int|
            0 <= j < i ==> (#[trigger] vars[j]).0@ != key) {
            assert(vars[0].0@ != key);
            assert(t[i - 1] == vars[i]);
            assert forall|j: int| 0 <= j < i - 1 implies (#[trigger] t[j]).0@ != key by {
                assert(t[j] == vars[j + 1]);
            }
        }
        if forall|j: int| 0 <= j < vars.len() ==> (#[trigger] vars[j]).0@ != key {
            assert(vars[0].0@ != key);
            assert forall|j: int| 0 <= j < t.len() implies (#[trigger] t[j]).0@ != key by {
                assert(t[j] == vars[j + 1]);
            }
        }
    }
}

/// A number read from a variable with `str::parse`, or `default` when the variable is
/// missing or does not parse.
pub open spec fn env_number(e: Option<Seq<char>>, max: nat, default: nat) -> nat {
    match e {
        Some(v) => match parse_unsigned(v, max) {
            Some(n) => n,
            None => default,
        },
        None => default,
    }
}

/// `s.split(',').map(|e| e.trim())`.
pub open spec fn comma_list(s: Seq<char>) -> Seq<Seq<char>> {
    split_on(s, ',').map_values(|p: Seq<char>| trim(p))
}

pub open spec fn strings_of(v: Seq<String>) -> Seq<Seq<char>> {
    v.map_values(|s: String| s@)
}

impl EnvVars {
    pub open spec fn lookup(&self, key: Seq<char>) -> Option<Seq<char>> {
        env_lookup(self.vars@, key)
    }

    /// `std::env::var(key).ok()` on the snapshot.
    pub fn get(&self, key: &str) -> (r: Option<String>)
        ensures
            match self.lookup(key@) {
                Some(v) => r matches Some(x) && x@ == v,
                None => r is None,
            },
    {
        let mut i: usize = 0;
        assert(self.vars@.skip(0) =~= self.vars@);
        while i < self.vars.len()
            invariant
                0 <= i <= self.vars@.len(),
                env_lookup(self.vars@, key@) == env_lookup(self.vars@.skip(i as int), key@),
            decreases self.vars@.len() - i,
        {
            assert(self.vars@.skip(i as int).drop_first() =~= self.vars@.skip(i + 1));
            if str_eq(self.vars[i].0.as_str(), key) {
                return Some(self.vars[i].1.clone());
            }
            i += 1;
        }
        None
    }

    /// A `u32` variable, or `default`.
    pub fn get_u32_or(&self, key: &str, default: u32) -> (r: u32)
        ensures
            r == env_number(self.lookup(key@), u32::MAX as nat, default as nat),
    {
        match self.get(key) {
            Some(v) => match parse_u32(v.as_str()) {
                Some(n) => n,
                None => default,
            },
            None => default,
        }
    }

    /// A `u64` variable, or `default`.
    pub fn get_u64_or(&self, key: &str, default: u64) -> (r: u64)
        ensures
            r == env_number(self.lookup(key@), u64::MAX as nat, default as nat),
    {
        match self.get(key) {
            Some(v) => match parse_u64(v.as_str()) {
                Some(n) => n,
                None => default,
            },
            None => default,
        }
    }

    /// A `usize` variable, or `default`.
    pub fn get_usize_or(&self, key: &str, default: usize) -> (r: usize)
        ensures
            r == env_number(self.lookup(key@), usize::MAX as nat, default as nat),
    {
        match self.get(key) {
            Some(v) => match parse_usize(v.as_str()) {
                Some(n) => n,
                None => default,
            },
            None => default,
        }
    }

    /// A text variable, or `default`.
    pub fn get_or(&self, key: &str, default: &str) -> (r: String)
        ensures
            r@ == match self.lookup(key@) {
                Some(v) => v,
                None => default@,
            },
    {
        match self.get(key) {
            Some(v) => v,
            None => String::from_str(default),
        }
    }

    /// A flag variable: set when its value is `true` or `1`.
    pub fn get_flag(&self, key: &str) -> (r: bool)
        ensures
            r == match self.lookup(key@) {
                Some(v) => v == "true"@ || v == "1"@,
                None => false,
            },
    {
        match self.get(key) {
            Some(v) => str_eq(v.as_str(), "true") || str_eq(v.as_str(), "1"),
            None => false,
        }
    }
}

/// The comma-separated items of `s`, each trimmed.
pub fn split_commas(s: &str) -> (r: Vec<String>)
    ensures
        strings_of(r@) == comma_list(s@),
{
    let v = chars_of(s);
    let mut out: Vec<String> = Vec::new();
    let mut start: usize = 0;
    let mut i: usize = 0;
    while i < v.len()
        invariant
            v@ == s@,
            0 <= start <= i <= v@.len(),
            forall|j: int| start <= j < i ==> v@[j] != ',',
            start == 0 ==> out@.len() == 0,
            start > 0 ==> v@[start - 1] == ',' && strings_of(out@) == comma_list(
                v@.subrange(0, start - 1),
            ),
        decreases v@.len() - i,
    {
        if v[i] == ',' {
            let piece = trimmed_piece(&v, start, i);
            let ghost prev = out@;
            out.push(piece);
            proof {
                lemma_comma_step(v@, start as int, i as int, prev);
            }
            start = i + 1;
        }
        i += 1;
    }
    let piece = trimmed_piece(&v, start, v.len());
    let ghost prev = out@;
    out.push(piece);
    proof {
        lemma_comma_step(v@, start as int, v@.len() as int, prev);
        assert(v@.subrange(0, v@.len() as int) =~= s@);
    }
    out
}

fn trimmed_piece(v: &Vec<char>, lo: usize, hi: usize) -> (r: String)
    requires
        lo <= hi <= v@.len(),
    ensures
        r@ == trim(v@.subrange(lo as int, hi as int)),
{
    let piece = range_to_string(v, lo, hi);
    let w = chars_of(piece.as_str());
    let (a, b) = trim_bounds(&w);
    range_to_string(&w, a, b)
}

proof fn lemma_comma_step(v: Seq<char>, start: int, i: int, prev: Seq<String>)
    requires
        0 <= start <= i <= v.len(),
        forall|j: int| start <= j < i ==> v[j] != ',',
        start == 0 ==> prev.len() == 0,
        start > 0 ==> v[start - 1] == ',' && strings_of(prev) == comma_list(v.subrange(0, start - 1)),
    ensures
        forall|piece: String|
            piece@ == trim(v.subrange(start, i)) ==> strings_of(prev.push(piece)) == comma_list(
                v.subrange(0, i),
            ),
{
    let t = v.subrange(start, i);
    assert(!has_char(t, ',')) by {
        if has_char(t, ',') {
            let j = choose|j: int| 0 <= j < t.len() && t[j] == ',';
            assert(v[start + j] == ',');
        }
    }
    assert forall|piece: String| piece@ == trim(t) implies strings_of(prev.push(piece))
        == comma_list(v.subrange(0, i)) by {
        if start == 0 {
            lemma_split_on_free(t, ',');
            assert(v.subrange(0, i) == t);
            assert(strings_of(prev.push(piece)) =~= seq![trim(t)]);
            assert(comma_list(t) =~= seq![trim(t)]);
        } else {
            let a = v.subrange(0, start - 1);
            lemma_split_on_append(a, t, ',');
            assert(v.subrange(0, i) =~= a + seq![','] + t);
            assert(comma_list(v.subrange(0, i)) =~= comma_list(a).push(trim(t)));
            assert(strings_of(prev.push(piece)) =~= strings_of(prev).push(piece@));
        }
    }
}

} // verus!
