//! Server configuration and the precedence of the environment variables
//! handed to components.

use vstd::prelude::*;
use vstd::string::*;

use crate::env_file::{last_some, lemma_last_some_agree};
use crate::manifest::first_some;
use crate::text::str_eq;
use crate::utils::default_bind_address;

verus! {

/// Configuration of the server.
#[derive(Debug, Clone)]
pub struct Config {
    /// Directory where components are stored.
    pub component_dir: String,
    /// Directory where secrets are stored.
    pub secrets_dir: String,
    /// Variables made available to components, as assignments in order: a
    /// later assignment of a key overrides an earlier one.
    pub environment_vars: Vec<(String, String)>,
    /// Bind address of the HTTP transports.
    pub bind_address: String,
}

/// The value that the assignment at index `i` of `v` gives `key`, if it
/// assigns `key`.
pub open spec fn assigned(v: Seq<(String, String)>, key: Seq<char>) -> spec_fn(int) -> Option<Seq<char>> {
    |i: int| if v[i].0@ == key { Some(v[i].1@) } else { None }
}

/// The value that the assignments `v` give `key`: the last one's.
pub open spec fn lookup(v: Seq<(String, String)>, key: Seq<char>) -> Option<Seq<char>> {
    last_some(0, v.len() as int, assigned(v, key))
}

/// The value that the first assignment of `key` in `v` gives.
pub open spec fn first_value(v: Seq<(String, String)>, key: Seq<char>) -> Option<Seq<char>> {
    first_some(0, v.len() as int, assigned(v, key))
}

proof fn lemma_lookup_push(v: Seq<(String, String)>, p: (String, String), key: Seq<char>)
    ensures
        lookup(v.push(p), key) == if p.0@ == key {
            Some(p.1@)
        } else {
            lookup(v, key)
        },
{
    let w = v.push(p);
    let f = assigned(v, key);
    let g = assigned(w, key);
    assert forall|i: int| 0 <= i < v.len() implies #[trigger] f(i) == g(i) by {
        assert(w[i] == v[i]);
    }
    lemma_last_some_agree(0, v.len() as int, f, g);
    assert(w[v.len() as int] == p);
    assert(lookup(w, key) == last_some(0, w.len() as int, g));
    assert(lookup(v, key) == last_some(0, v.len() as int, f));
}

proof fn lemma_first_value_push(v: Seq<(String, String)>, p: (String, String), key: Seq<char>)
    ensures
        first_value(v.push(p), key) == match first_value(v, key) {
            Some(x) => Some(x),
            None => if p.0@ == key {
                Some(p.1@)
            } else {
                None
            },
        },
{
    let w = v.push(p);
    let f = assigned(v, key);
    let g = assigned(w, key);
    assert forall|i: int| 0 <= i < v.len() implies #[trigger] f(i) == g(i) by {
        assert(w[i] == v[i]);
    }
    lemma_first_some_extend(0, v.len() as int, f, g);
    assert(w[v.len() as int] == p);
    assert(first_value(w, key) == first_some(0, w.len() as int, g));
    assert(first_value(v, key) == first_some(0, v.len() as int, f));
}

proof fn lemma_first_some_extend<E>(
    lo: int,
    hi: int,
    f: spec_fn(int) -> Option<E>,
    g: spec_fn(int) -> Option<E>,
)
    requires
        lo <= hi,
        forall|i: int| lo <= i < hi ==> #[trigger] f(i) == g(i),
    ensures
        first_some(lo, hi + 1, g) == match first_some(lo, hi, f) {
            Some(x) => Some(x),
            None => g(hi),
        },
    decreases hi - lo,
{
    if lo < hi {
        lemma_first_some_extend(lo + 1, hi, f, g);
        assert(f(lo) == g(lo));
    } else {
        assert(first_some(hi + 1, hi + 1, g) is None);
    }
}

fn lookup_exec(v: &Vec<(String, String)>, key: &str) -> (r: bool)
    ensures
        r == (lookup(v@, key@) is Some),
{
    let ghost f = assigned(v@, key@);
    let mut i: usize = v.len();
    while i > 0
        invariant
            i <= v@.len(),
            f == assigned(v@, key@),
            lookup(v@, key@) == last_some(0, i as int, f),
        decreases i,
    {
        if str_eq(v[i - 1].0.as_str(), key) {
            return true;
        }
        i = i - 1;
    }
    false
}

impl Config {
    /// A configuration with the given directories, no variables and the
    /// default bind address.
    pub fn new(component_dir: String, secrets_dir: String) -> (r: Self)
        ensures
            r.component_dir == component_dir,
            r.secrets_dir == secrets_dir,
            r.environment_vars@.len() == 0,
            r.bind_address@ == "127.0.0.1:9001"@,
    {
        Config { component_dir, secrets_dir, environment_vars: Vec::new(), bind_address: default_bind_address() }
    }

    /// The value the configuration gives the variable `key`, if any.
    pub fn environment_var(&self, key: &str) -> (r: Option<&String>)
        ensures
            match lookup(self.environment_vars@, key@) {
                Some(v) => r is Some && r->0@ == v,
                None => r is None,
            },
    {
        let ghost v = self.environment_vars@;
        let ghost f = assigned(v, key@);
        let mut i: usize = self.environment_vars.len();
        while i > 0
            invariant
                v == self.environment_vars@,
                i <= v.len(),
                f == assigned(v, key@),
                lookup(v, key@) == last_some(0, i as int, f),
            decreases i,
        {
            if str_eq(self.environment_vars[i - 1].0.as_str(), key) {
                return Some(&self.environment_vars[i - 1].1);
            }
            i = i - 1;
        }
        None
    }

    /// Merges variables by precedence: those of an environment file, then
    /// those given on the command line, override what the configuration has;
    /// the process environment only fills keys still unset (its first value
    /// of a key counts).
    #[verifier::loop_isolation(false)]
    pub fn merge_environment(
        &mut self,
        file_vars: &Vec<(String, String)>,
        cli_vars: &Vec<(String, String)>,
        system_vars: &Vec<(String, String)>,
    )
        ensures
            final(self).component_dir == old(self).component_dir,
            final(self).secrets_dir == old(self).secrets_dir,
            final(self).bind_address == old(self).bind_address,
            forall|key: Seq<char>|
                #[trigger] lookup(final(self).environment_vars@, key) == match lookup(
                    old(self).environment_vars@ + file_vars@ + cli_vars@,
                    key,
                ) {
                    Some(v) => Some(v),
                    None => first_value(system_vars@, key),
                },
    {
        let ghost base = old(self).environment_vars@ + file_vars@ + cli_vars@;
        let mut i: usize = 0;
        while i < file_vars.len()
            invariant
                i <= file_vars@.len(),
                self.environment_vars@ == old(self).environment_vars@ + file_vars@.subrange(0, i as int),
                self.component_dir == old(self).component_dir,
                self.secrets_dir == old(self).secrets_dir,
                self.bind_address == old(self).bind_address,
            decreases file_vars@.len() - i,
        {
            self.environment_vars.push((file_vars[i].0.clone(), file_vars[i].1.clone()));
            i = i + 1;
            assert(self.environment_vars@ =~= old(self).environment_vars@ + file_vars@.subrange(0, i as int));
        }
        assert(file_vars@.subrange(0, file_vars@.len() as int) =~= file_vars@);
        let mut i: usize = 0;
        while i < cli_vars.len()
            invariant
                i <= cli_vars@.len(),
                self.environment_vars@ == old(self).environment_vars@ + file_vars@ + cli_vars@.subrange(0, i as int),
                self.component_dir == old(self).component_dir,
                self.secrets_dir == old(self).secrets_dir,
                self.bind_address == old(self).bind_address,
            decreases cli_vars@.len() - i,
        {
            self.environment_vars.push((cli_vars[i].0.clone(), cli_vars[i].1.clone()));
            i = i + 1;
            assert(self.environment_vars@ =~= old(self).environment_vars@ + file_vars@ + cli_vars@.subrange(0, i as int));
        }
        assert(cli_vars@.subrange(0, cli_vars@.len() as int) =~= cli_vars@);
        assert(self.environment_vars@ == base);
        let mut i: usize = 0;
        while i < system_vars.len()
            invariant
                i <= system_vars@.len(),
                self.component_dir == old(self).component_dir,
                self.secrets_dir == old(self).secrets_dir,
                self.bind_address == old(self).bind_address,
                forall|key: Seq<char>|
                    #[trigger] lookup(self.environment_vars@, key) == match lookup(base, key) {
                        Some(v) => Some(v),
                        None => first_value(system_vars@.subrange(0, i as int), key),
                    },
            decreases system_vars@.len() - i,
        {
            let ghost before = self.environment_vars@;
            let ghost p = system_vars@[i as int];
            let ghost pre = system_vars@.subrange(0, i as int);
            assert(system_vars@.subrange(0, i + 1 as int) =~= pre.push(p));
            if !lookup_exec(&self.environment_vars, system_vars[i].0.as_str()) {
                self.environment_vars.push((system_vars[i].0.clone(), system_vars[i].1.clone()));
                assert forall|key: Seq<char>|
                    #[trigger] lookup(self.environment_vars@, key) == match lookup(base, key) {
                        Some(v) => Some(v),
                        None => first_value(system_vars@.subrange(0, i + 1 as int), key),
                    } by {
                    lemma_lookup_push(before, self.environment_vars@.last(), key);
                    assert(self.environment_vars@ == before.push(self.environment_vars@.last()));
                    lemma_first_value_push(pre, p, key);
                }
            } else {
                assert forall|key: Seq<char>|
                    #[trigger] lookup(self.environment_vars@, key) == match lookup(base, key) {
                        Some(v) => Some(v),
                        None => first_value(system_vars@.subrange(0, i + 1 as int), key),
                    } by {
                    lemma_first_value_push(pre, p, key);
                    assert(lookup(before, key) == match lookup(base, key) {
                        Some(v) => Some(v),
                        None => first_value(pre, key),
                    });
                }
            }
            i = i + 1;
        }
        assert(system_vars@.subrange(0, system_vars@.len() as int) =~= system_vars@);
    }
}

} // verus!
